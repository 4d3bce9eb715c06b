//! The source document model and its conversion into the canonical model.
//!
//! The types in this module describe the source tree as the conversion
//! reads it: plain strings, options and vectors, one struct or enum per
//! markup node kind.  The `from_fb2` constructors on the canonical types
//! walk this tree once, depth first, and each carries a contract relating
//! its result to the specification-level conversion functions.

use vstd::prelude::*;

verus! {

broadcast use crate::lemma_vec_deep_view_len, crate::lemma_vec_deep_view_index,
    crate::lemma_dseq_len, crate::lemma_dseq_index, crate::lemma_dseq_vec,
    crate::lemma_dseq_push, crate::lemma_dseq_add, crate::lemma_dseq_take,
    crate::lemma_dseq_skip;

// ---------------------------------------------------------------------------
// Source document model
// ---------------------------------------------------------------------------

/// The root of a source document.
#[derive(Debug)]
pub struct FictionBook {
    pub description: Description,
    pub bodies: Vec<Body>,
}

#[derive(Debug)]
pub struct Description {
    pub title_info: TitleInfo,
}

#[derive(Debug)]
pub struct TitleInfo {
    pub book_title: String,
    pub date: Option<Date>,
    pub authors: Vec<Author>,
    pub lang: String,
    pub cover_page: Option<CoverPage>,
    pub annotation: Option<Annotation>,
}

#[derive(Debug)]
pub struct Date {
    pub iso_date: Option<crate::IsoDate>,
    pub display_date: Option<String>,
}

#[derive(Debug)]
pub enum Author {
    Verbose(VerboseAuthor),
    Anonymous(AnonymousAuthor),
}

#[derive(Debug)]
pub struct VerboseAuthor {
    pub first_name: String,
    pub last_name: String,
    pub middle_name: Option<String>,
    pub nickname: Option<String>,
}

#[derive(Debug)]
pub struct AnonymousAuthor {
    pub nickname: Option<String>,
}

#[derive(Debug)]
pub struct CoverPage {
    pub images: Vec<InlineImage>,
}

/// One body of the document; the unnamed body is the main one, the bodies
/// named "notes" and "comments" hold the footnote collections.
#[derive(Debug)]
pub struct Body {
    pub name: Option<String>,
    pub lang: Option<language_tags::LanguageTag>,
    pub title: Option<Title>,
    pub epigraphs: Vec<Epigraph>,
    pub sections: Vec<Section>,
}

#[derive(Debug)]
pub struct Section {
    pub id: Option<String>,
    pub content: Option<SectionContent>,
}

#[derive(Debug)]
pub struct SectionContent {
    pub title: Option<Title>,
    pub epigraphs: Vec<Epigraph>,
    pub image: Option<Image>,
    pub annotation: Option<Annotation>,
    pub content: Vec<SectionPart>,
    pub sections: Vec<Section>,
}

#[derive(Debug)]
pub enum SectionPart {
    Paragraph(Paragraph),
    Poem(Poem),
    Subtitle(Paragraph),
    Cite(Cite),
    Table(Table),
    Image(Image),
    EmptyLine,
}

#[derive(Debug)]
pub struct Annotation {
    pub id: Option<String>,
    pub elements: Vec<AnnotationElement>,
}

#[derive(Debug)]
pub enum AnnotationElement {
    Paragraph(Paragraph),
    Poem(Poem),
    Cite(Cite),
    Subtitle(Paragraph),
    Table(Table),
    EmptyLine,
}

#[derive(Debug)]
pub struct Epigraph {
    pub id: Option<String>,
    pub elements: Vec<EpigraphElement>,
    pub text_authors: Vec<Paragraph>,
}

#[derive(Debug)]
pub enum EpigraphElement {
    Paragraph(Paragraph),
    Poem(Poem),
    Cite(Cite),
    EmptyLine,
}

#[derive(Debug)]
pub struct Poem {
    pub id: Option<String>,
    pub title: Option<Title>,
    pub epigraphs: Vec<Epigraph>,
    pub stanzas: Vec<PoemStanza>,
    pub text_authors: Vec<Paragraph>,
}

#[derive(Debug)]
pub enum PoemStanza {
    Subtitle(Paragraph),
    Stanza(Stanza),
}

#[derive(Debug)]
pub struct Stanza {
    pub title: Option<Title>,
    pub subtitle: Option<Paragraph>,
    pub lines: Vec<Paragraph>,
}

#[derive(Debug)]
pub struct Cite {
    pub id: Option<String>,
    pub elements: Vec<CiteElement>,
    pub text_authors: Vec<Paragraph>,
}

#[derive(Debug)]
pub enum CiteElement {
    Paragraph(Paragraph),
    Poem(Poem),
    Subtitle(Paragraph),
    Table(Table),
    EmptyLine,
}

#[derive(Debug)]
pub struct Title {
    pub elements: Vec<TitleElement>,
}

#[derive(Debug)]
pub enum TitleElement {
    Paragraph(Paragraph),
    EmptyLine,
}

#[derive(Debug)]
pub struct Paragraph {
    pub id: Option<String>,
    pub elements: Vec<StyleElement>,
}

#[derive(Debug)]
pub struct Table {
    pub id: Option<String>,
    pub rows: Vec<TableRow>,
}

#[derive(Debug)]
pub struct TableRow {
    pub cells: Vec<TableCellElement>,
}

/// A source cell is tagged head or data; the tag only feeds the table's
/// header inference and is dropped from the canonical model.
#[derive(Debug)]
pub enum TableCellElement {
    Head(TableCell),
    Data(TableCell),
}

#[derive(Debug)]
pub struct TableCell {
    pub id: Option<String>,
    pub elements: Vec<StyleElement>,
}

#[derive(Debug)]
pub struct Image {
    pub id: Option<String>,
    pub href: Option<String>,
    pub alt: Option<String>,
    pub title: Option<String>,
}

#[derive(Debug)]
pub struct InlineImage {
    pub href: Option<String>,
    pub alt: Option<String>,
}

/// One inline markup node.
#[derive(Debug)]
pub enum StyleElement {
    Strong(Style),
    Emphasis(Style),
    Style(Style),
    Link(LinkNode),
    Strikethrough(Style),
    Subscript(Style),
    Superscript(Style),
    Code(Style),
    Image(InlineImage),
    Text(String),
}

#[derive(Debug)]
pub struct Style {
    pub elements: Vec<StyleElement>,
}

#[derive(Debug)]
pub struct LinkNode {
    pub href: Option<String>,
    pub kind: Option<String>,
    pub elements: Vec<StyleLinkElement>,
}

/// An inline markup node inside a hyperlink: hyperlinks do not nest.
#[derive(Debug)]
pub enum StyleLinkElement {
    Strong(Vec<StyleLinkElement>),
    Emphasis(Vec<StyleLinkElement>),
    Style(Vec<StyleLinkElement>),
    Strikethrough(Vec<StyleLinkElement>),
    Subscript(Vec<StyleLinkElement>),
    Superscript(Vec<StyleLinkElement>),
    Code(Vec<StyleLinkElement>),
    Image(InlineImage),
    Text(String),
}

// ---------------------------------------------------------------------------
// Conversion context
// ---------------------------------------------------------------------------

/// The read-only bundle every recursive conversion call borrows: the
/// caller's binary-name index and the footnote/comment key sets.
pub struct Context<'a> {
    pub binaries: &'a crate::BinaryIndex,
    pub notes: crate::KeySet,
    pub comments: crate::KeySet,
}

/// Mirror of [`Context`].
#[verifier::ext_equal]
pub struct ContextV {
    pub binaries: Map<Seq<char>, u128>,
    pub notes: Set<Seq<char>>,
    pub comments: Set<Seq<char>>,
}

impl<'a> View for Context<'a> {
    type V = ContextV;

    open spec fn view(&self) -> ContextV {
        ContextV { binaries: self.binaries@, notes: self.notes@, comments: self.comments@ }
    }
}

// ---------------------------------------------------------------------------
// Small helpers
// ---------------------------------------------------------------------------

/// `value` if it is non-empty, absent otherwise.
pub open spec fn non_empty_view(s: Seq<char>) -> Option<Seq<char>> {
    if s.len() == 0 {
        None
    } else {
        Some(s)
    }
}

pub open spec fn opt_non_empty_view(o: Option<Seq<char>>) -> Option<Seq<char>> {
    match o {
        Some(s) => non_empty_view(s),
        None => None,
    }
}

/// `value` if it is non-empty, `None` otherwise.
pub fn non_empty(value: String) -> (r: Option<String>)
    ensures
        r.deep_view() == non_empty_view(value@),
{
    if value.as_str().is_empty() {
        None
    } else {
        Some(value)
    }
}

fn clone_opt_string(o: &Option<String>) -> (r: Option<String>)
    ensures
        r.deep_view() == o.deep_view(),
{
    match o {
        Some(s) => Some(s.clone()),
        None => None,
    }
}

fn str_eq(a: &str, b: &str) -> (r: bool)
    ensures
        r == (a@ == b@),
{
    let x = a.to_owned();
    let y = b.to_owned();
    x == y
}

// ---------------------------------------------------------------------------
// Text runs, hyperlink targets, images: specification
// ---------------------------------------------------------------------------

/// A bare text run resolves to one unstyled run unless it is empty.
pub open spec fn spec_text(value: Seq<char>) -> Option<crate::TextV> {
    match non_empty_view(value) {
        Some(v) => Some(crate::plain_text(v)),
        None => None,
    }
}

/// A target resolves to a local anchor key when it starts with `#`, to a
/// normalized remote URL when it parses as one, and to nothing otherwise.
pub open spec fn spec_href(href: Seq<char>) -> Option<crate::HrefV> {
    if href.len() == 0 {
        None
    } else if href[0] == '#' {
        Some(crate::HrefV::Local(href.skip(1)))
    } else {
        match crate::url_norm(href) {
            Some(u) => Some(crate::HrefV::Remote(u)),
            None => None,
        }
    }
}

/// An inline image survives exactly when its resource name is bound in
/// the binary index.
pub open spec fn spec_inline_image(image: InlineImage, binaries: Map<Seq<char>, u128>) -> Option<
    crate::InlineImageV,
> {
    match image.href {
        Some(h) => if h@.len() > 0 && binaries.contains_key(h@) {
            Some(crate::InlineImageV { id: binaries[h@], alt: image.alt.deep_view() })
        } else {
            None
        },
        None => None,
    }
}

/// A block image survives exactly when its resource name is bound in the
/// binary index.
pub open spec fn spec_image(image: Image, binaries: Map<Seq<char>, u128>) -> Option<crate::ImageV> {
    match image.href {
        Some(h) => if h@.len() > 0 && binaries.contains_key(h@) {
            Some(
                crate::ImageV {
                    id: binaries[h@],
                    anchor: image.id.deep_view(),
                    alt: image.alt.deep_view(),
                    title: image.title.deep_view(),
                },
            )
        } else {
            None
        },
        None => None,
    }
}

// ---------------------------------------------------------------------------
// Inline spans: specification
// ---------------------------------------------------------------------------

/// The plain text runs among collected spans, in order; footnote and link
/// spans are discarded.
pub open spec fn texts_of(ss: Seq<crate::SpanV>) -> Seq<crate::TextV>
    decreases ss.len(),
{
    if ss.len() == 0 {
        Seq::empty()
    } else {
        let rest = texts_of(ss.drop_last());
        match ss.last() {
            crate::SpanV::Text(t) => rest.push(t),
            _ => rest,
        }
    }
}

/// The image spans among collected spans, in order.
pub open spec fn images_of(ss: Seq<crate::SpanV>) -> Seq<crate::SpanV>
    decreases ss.len(),
{
    if ss.len() == 0 {
        Seq::empty()
    } else {
        let rest = images_of(ss.drop_last());
        match ss.last() {
            crate::SpanV::Image(i) => rest.push(crate::SpanV::Image(i)),
            _ => rest,
        }
    }
}

/// The concatenation of the values of the given text runs.
pub open spec fn concat_text_values(ts: Seq<crate::TextV>) -> Seq<char>
    decreases ts.len(),
{
    if ts.len() == 0 {
        Seq::empty()
    } else {
        concat_text_values(ts.drop_last()) + ts.last().value
    }
}

/// What a hyperlink wrapper with a resolved target emits, given the spans
/// collected from its children.  Disambiguation priority: a known binary
/// resource wins outright and consumes all text as alt text; then a known
/// footnote key, a known comment key, an explicit "note" kind (plain
/// text), and finally a generic link; collected images follow in every
/// branch but the first.
pub open spec fn spec_link_target_spans(
    href: crate::HrefV,
    collected: Seq<crate::SpanV>,
    kind: Option<Seq<char>>,
    ctx: ContextV,
) -> Seq<crate::SpanV> {
    let texts = texts_of(collected);
    let images = images_of(collected);
    let key = crate::href_key(href);
    if ctx.binaries.contains_key(key) {
        seq![
            crate::SpanV::Image(
                crate::InlineImageV {
                    id: ctx.binaries[key],
                    alt: non_empty_view(concat_text_values(texts)),
                },
            ),
        ]
    } else if texts.len() > 0 {
        (if ctx.notes.contains(key) {
            seq![
                crate::SpanV::Footnote(
                    crate::FootnoteLinkV {
                        id: key,
                        kind: crate::FootnoteKind::Note,
                        content: texts,
                    },
                ),
            ]
        } else if ctx.comments.contains(key) {
            seq![
                crate::SpanV::Footnote(
                    crate::FootnoteLinkV {
                        id: key,
                        kind: crate::FootnoteKind::Comment,
                        content: texts,
                    },
                ),
            ]
        } else if kind == Some("note"@) {
            texts.map_values(|t: crate::TextV| crate::SpanV::Text(t))
        } else {
            seq![crate::SpanV::Link(crate::LinkV { href, content: texts })]
        }) + images
    } else {
        images
    }
}

/// What one inline node resolves to.
pub open spec fn spec_spans(e: StyleElement, ctx: ContextV) -> Seq<crate::SpanV>
    decreases e,
{
    match e {
        StyleElement::Strong(s) => crate::apply_facet_spans(
            crate::StyleFacet::Bold,
            spec_spans_seq(s.elements@, ctx),
        ),
        StyleElement::Emphasis(s) => crate::apply_facet_spans(
            crate::StyleFacet::Italic,
            spec_spans_seq(s.elements@, ctx),
        ),
        StyleElement::Style(s) => spec_spans_seq(s.elements@, ctx),
        StyleElement::Link(l) => spec_link(l, ctx),
        StyleElement::Strikethrough(s) => crate::apply_facet_spans(
            crate::StyleFacet::Strikethrough,
            spec_spans_seq(s.elements@, ctx),
        ),
        StyleElement::Subscript(s) => crate::apply_facet_spans(
            crate::StyleFacet::Subscript,
            spec_spans_seq(s.elements@, ctx),
        ),
        StyleElement::Superscript(s) => crate::apply_facet_spans(
            crate::StyleFacet::Superscript,
            spec_spans_seq(s.elements@, ctx),
        ),
        StyleElement::Code(s) => crate::apply_facet_spans(
            crate::StyleFacet::Code,
            spec_spans_seq(s.elements@, ctx),
        ),
        StyleElement::Image(i) => match spec_inline_image(i, ctx.binaries) {
            Some(iv) => seq![crate::SpanV::Image(iv)],
            None => Seq::empty(),
        },
        StyleElement::Text(t) => match spec_text(t@) {
            Some(tv) => seq![crate::SpanV::Text(tv)],
            None => Seq::empty(),
        },
    }
}

pub open spec fn spec_spans_seq(es: Seq<StyleElement>, ctx: ContextV) -> Seq<crate::SpanV>
    decreases es,
{
    if es.len() == 0 {
        Seq::empty()
    } else {
        spec_spans_seq(es.drop_last(), ctx) + spec_spans(es.last(), ctx)
    }
}

/// What a hyperlink wrapper resolves to.  Without a resolved target its
/// children pass through unchanged; with one, the children are collected
/// by the restricted resolver and handed to the target disambiguation.
pub open spec fn spec_link(l: LinkNode, ctx: ContextV) -> Seq<crate::SpanV>
    decreases l,
{
    let collected = spec_link_spans_seq(l.elements@, ctx.binaries);
    match l.href {
        None => collected,
        Some(h) => match spec_href(h@) {
            None => collected,
            Some(href) => spec_link_target_spans(href, collected, l.kind.deep_view(), ctx),
        },
    }
}

/// What one inline node inside a hyperlink resolves to: as outside one,
/// but with no nested hyperlink and no footnote/comment resolution.
pub open spec fn spec_link_element_spans(
    e: StyleLinkElement,
    binaries: Map<Seq<char>, u128>,
) -> Seq<crate::SpanV>
    decreases e,
{
    match e {
        StyleLinkElement::Strong(es) => crate::apply_facet_spans(
            crate::StyleFacet::Bold,
            spec_link_spans_seq(es@, binaries),
        ),
        StyleLinkElement::Emphasis(es) => crate::apply_facet_spans(
            crate::StyleFacet::Italic,
            spec_link_spans_seq(es@, binaries),
        ),
        StyleLinkElement::Style(es) => spec_link_spans_seq(es@, binaries),
        StyleLinkElement::Strikethrough(es) => crate::apply_facet_spans(
            crate::StyleFacet::Strikethrough,
            spec_link_spans_seq(es@, binaries),
        ),
        StyleLinkElement::Subscript(es) => crate::apply_facet_spans(
            crate::StyleFacet::Subscript,
            spec_link_spans_seq(es@, binaries),
        ),
        StyleLinkElement::Superscript(es) => crate::apply_facet_spans(
            crate::StyleFacet::Superscript,
            spec_link_spans_seq(es@, binaries),
        ),
        StyleLinkElement::Code(es) => crate::apply_facet_spans(
            crate::StyleFacet::Code,
            spec_link_spans_seq(es@, binaries),
        ),
        StyleLinkElement::Image(i) => match spec_inline_image(i, binaries) {
            Some(iv) => seq![crate::SpanV::Image(iv)],
            None => Seq::empty(),
        },
        StyleLinkElement::Text(t) => match spec_text(t@) {
            Some(tv) => seq![crate::SpanV::Text(tv)],
            None => Seq::empty(),
        },
    }
}

pub open spec fn spec_link_spans_seq(
    es: Seq<StyleLinkElement>,
    binaries: Map<Seq<char>, u128>,
) -> Seq<crate::SpanV>
    decreases es,
{
    if es.len() == 0 {
        Seq::empty()
    } else {
        spec_link_spans_seq(es.drop_last(), binaries) + spec_link_element_spans(
            es.last(),
            binaries,
        )
    }
}

// ---------------------------------------------------------------------------
// Block-level content: specification
// ---------------------------------------------------------------------------

/// A paragraph survives exactly when its spans are non-empty.
pub open spec fn spec_paragraph(p: Paragraph, ctx: ContextV) -> Option<crate::ParagraphV> {
    let content = spec_spans_seq(p.elements@, ctx);
    if content.len() == 0 {
        None
    } else {
        Some(crate::ParagraphV { anchor: p.id.deep_view(), content })
    }
}

pub open spec fn spec_paragraph_opt(o: Option<Paragraph>, ctx: ContextV) -> Option<
    crate::ParagraphV,
> {
    match o {
        Some(p) => spec_paragraph(p, ctx),
        None => None,
    }
}

pub open spec fn spec_paragraphs(s: Seq<Paragraph>, ctx: ContextV) -> Seq<crate::ParagraphV>
    decreases s.len(),
{
    if s.len() == 0 {
        Seq::empty()
    } else {
        let rest = spec_paragraphs(s.drop_last(), ctx);
        match spec_paragraph(s.last(), ctx) {
            Some(p) => rest.push(p),
            None => rest,
        }
    }
}

pub open spec fn spec_title_element(e: TitleElement, ctx: ContextV) -> Option<
    crate::TitleElementV,
> {
    match e {
        TitleElement::Paragraph(p) => match spec_paragraph(p, ctx) {
            Some(pv) => Some(crate::TitleElementV::Paragraph(pv)),
            None => None,
        },
        TitleElement::EmptyLine => Some(crate::TitleElementV::EmptyLine),
    }
}

pub open spec fn spec_title_elements(s: Seq<TitleElement>, ctx: ContextV) -> Seq<
    crate::TitleElementV,
>
    decreases s.len(),
{
    if s.len() == 0 {
        Seq::empty()
    } else {
        let rest = spec_title_elements(s.drop_last(), ctx);
        match spec_title_element(s.last(), ctx) {
            Some(e) => rest.push(e),
            None => rest,
        }
    }
}

/// A title survives exactly when its element list is non-empty.
pub open spec fn spec_title(t: Title, ctx: ContextV) -> Option<crate::TitleV> {
    let content = spec_title_elements(t.elements@, ctx);
    if content.len() == 0 {
        None
    } else {
        Some(crate::TitleV { content })
    }
}

pub open spec fn spec_title_opt(o: Option<Title>, ctx: ContextV) -> Option<crate::TitleV> {
    match o {
        Some(t) => spec_title(t, ctx),
        None => None,
    }
}

/// The cell node under a head or data tag.
pub open spec fn cell_of(e: TableCellElement) -> TableCell {
    match e {
        TableCellElement::Head(c) => c,
        TableCellElement::Data(c) => c,
    }
}

pub open spec fn is_head(e: TableCellElement) -> bool {
    match e {
        TableCellElement::Head(_) => true,
        TableCellElement::Data(_) => false,
    }
}

/// A cell is never dropped, whatever it holds: dropping one would
/// misalign its row.
pub open spec fn spec_cell(c: TableCell, ctx: ContextV) -> crate::TableCellV {
    crate::TableCellV { anchor: c.id.deep_view(), content: spec_spans_seq(c.elements@, ctx) }
}

pub open spec fn spec_cells(s: Seq<TableCellElement>, ctx: ContextV) -> Seq<crate::TableCellV>
    decreases s.len(),
{
    if s.len() == 0 {
        Seq::empty()
    } else {
        spec_cells(s.drop_last(), ctx).push(spec_cell(cell_of(s.last()), ctx))
    }
}

/// A row survives exactly when it has at least one cell.
pub open spec fn spec_row(r: TableRow, ctx: ContextV) -> Option<crate::TableRowV> {
    if r.cells.len() == 0 {
        None
    } else {
        Some(crate::TableRowV { cells: spec_cells(r.cells@, ctx) })
    }
}

pub open spec fn spec_rows(s: Seq<TableRow>, ctx: ContextV) -> Seq<crate::TableRowV>
    decreases s.len(),
{
    if s.len() == 0 {
        Seq::empty()
    } else {
        let rest = spec_rows(s.drop_last(), ctx);
        match spec_row(s.last(), ctx) {
            Some(r) => rest.push(r),
            None => rest,
        }
    }
}

/// Whether the first cell of the first row is a head cell.
pub open spec fn spec_first_head(rows: Seq<TableRow>) -> bool {
    rows.len() > 0 && rows[0].cells.len() > 0 && is_head(rows[0].cells@[0])
}

/// Whether the first cell of the second row is a head cell.
pub open spec fn spec_second_column_head(rows: Seq<TableRow>) -> bool {
    rows.len() > 1 && rows[1].cells.len() > 0 && is_head(rows[1].cells@[0])
}

/// Whether the second cell of the first row is a head cell.
pub open spec fn spec_second_row_head(rows: Seq<TableRow>) -> bool {
    rows.len() > 0 && rows[0].cells.len() > 1 && is_head(rows[0].cells@[1])
}

/// A table survives exactly when at least one row survives; its header
/// booleans come from the head/data tags of the leading cells.
pub open spec fn spec_table(t: Table, ctx: ContextV) -> Option<crate::TableV> {
    let rows = spec_rows(t.rows@, ctx);
    if rows.len() == 0 {
        None
    } else {
        Some(
            crate::TableV {
                anchor: t.id.deep_view(),
                header_column: spec_first_head(t.rows@) && spec_second_column_head(t.rows@),
                header_row: spec_first_head(t.rows@) && spec_second_row_head(t.rows@),
                rows,
            },
        )
    }
}

/// A stanza survives exactly when at least one of its lines survives.
pub open spec fn spec_stanza(s: Stanza, ctx: ContextV) -> Option<crate::StanzaV> {
    let content = spec_paragraphs(s.lines@, ctx);
    if content.len() == 0 {
        None
    } else {
        Some(
            crate::StanzaV {
                title: spec_title_opt(s.title, ctx),
                subtitle: spec_paragraph_opt(s.subtitle, ctx),
                content,
            },
        )
    }
}

pub open spec fn spec_poem_element(e: PoemStanza, ctx: ContextV) -> Option<crate::PoemElementV> {
    match e {
        PoemStanza::Subtitle(p) => match spec_paragraph(p, ctx) {
            Some(pv) => Some(crate::PoemElementV::Subtitle(pv)),
            None => None,
        },
        PoemStanza::Stanza(s) => match spec_stanza(s, ctx) {
            Some(sv) => Some(crate::PoemElementV::Stanza(sv)),
            None => None,
        },
    }
}

pub open spec fn spec_poem_elements(s: Seq<PoemStanza>, ctx: ContextV) -> Seq<crate::PoemElementV>
    decreases s.len(),
{
    if s.len() == 0 {
        Seq::empty()
    } else {
        let rest = spec_poem_elements(s.drop_last(), ctx);
        match spec_poem_element(s.last(), ctx) {
            Some(e) => rest.push(e),
            None => rest,
        }
    }
}

/// A poem survives exactly when at least one of its stanzas survives.
pub open spec fn spec_poem(p: Poem, ctx: ContextV) -> Option<crate::PoemV>
    decreases p,
{
    let content = spec_poem_elements(p.stanzas@, ctx);
    if content.len() == 0 {
        None
    } else {
        Some(
            crate::PoemV {
                anchor: p.id.deep_view(),
                title: spec_title_opt(p.title, ctx),
                epigraphs: spec_epigraphs(p.epigraphs@, ctx),
                authors: spec_paragraphs(p.text_authors@, ctx),
                content,
            },
        )
    }
}

pub open spec fn spec_epigraphs(s: Seq<Epigraph>, ctx: ContextV) -> Seq<crate::EpigraphV>
    decreases s,
{
    if s.len() == 0 {
        Seq::empty()
    } else {
        let rest = spec_epigraphs(s.drop_last(), ctx);
        match spec_epigraph(s.last(), ctx) {
            Some(e) => rest.push(e),
            None => rest,
        }
    }
}

/// An epigraph survives exactly when at least one of its elements
/// survives.
pub open spec fn spec_epigraph(e: Epigraph, ctx: ContextV) -> Option<crate::EpigraphV>
    decreases e,
{
    let content = spec_epigraph_elements(e.elements@, ctx);
    if content.len() == 0 {
        None
    } else {
        Some(
            crate::EpigraphV {
                anchor: e.id.deep_view(),
                authors: spec_paragraphs(e.text_authors@, ctx),
                content,
            },
        )
    }
}

pub open spec fn spec_epigraph_elements(s: Seq<EpigraphElement>, ctx: ContextV) -> Seq<
    crate::EpigraphElementV,
>
    decreases s,
{
    if s.len() == 0 {
        Seq::empty()
    } else {
        let rest = spec_epigraph_elements(s.drop_last(), ctx);
        match spec_epigraph_element(s.last(), ctx) {
            Some(e) => rest.push(e),
            None => rest,
        }
    }
}

pub open spec fn spec_epigraph_element(e: EpigraphElement, ctx: ContextV) -> Option<
    crate::EpigraphElementV,
>
    decreases e,
{
    match e {
        EpigraphElement::Paragraph(p) => match spec_paragraph(p, ctx) {
            Some(pv) => Some(crate::EpigraphElementV::Paragraph(pv)),
            None => None,
        },
        EpigraphElement::Poem(p) => match spec_poem(p, ctx) {
            Some(pv) => Some(crate::EpigraphElementV::Poem(pv)),
            None => None,
        },
        EpigraphElement::Cite(c) => match spec_cite(c, ctx) {
            Some(cv) => Some(crate::EpigraphElementV::Cite(cv)),
            None => None,
        },
        EpigraphElement::EmptyLine => Some(crate::EpigraphElementV::EmptyLine),
    }
}

/// A citation survives exactly when at least one of its elements
/// survives.
pub open spec fn spec_cite(c: Cite, ctx: ContextV) -> Option<crate::CiteV>
    decreases c,
{
    let content = spec_cite_elements(c.elements@, ctx);
    if content.len() == 0 {
        None
    } else {
        Some(
            crate::CiteV {
                anchor: c.id.deep_view(),
                authors: spec_paragraphs(c.text_authors@, ctx),
                content,
            },
        )
    }
}

pub open spec fn spec_cite_elements(s: Seq<CiteElement>, ctx: ContextV) -> Seq<crate::CiteElementV>
    decreases s,
{
    if s.len() == 0 {
        Seq::empty()
    } else {
        let rest = spec_cite_elements(s.drop_last(), ctx);
        match spec_cite_element(s.last(), ctx) {
            Some(e) => rest.push(e),
            None => rest,
        }
    }
}

pub open spec fn spec_cite_element(e: CiteElement, ctx: ContextV) -> Option<crate::CiteElementV>
    decreases e,
{
    match e {
        CiteElement::Paragraph(p) => match spec_paragraph(p, ctx) {
            Some(pv) => Some(crate::CiteElementV::Paragraph(pv)),
            None => None,
        },
        CiteElement::Poem(p) => match spec_poem(p, ctx) {
            Some(pv) => Some(crate::CiteElementV::Poem(pv)),
            None => None,
        },
        CiteElement::Subtitle(p) => match spec_paragraph(p, ctx) {
            Some(pv) => Some(crate::CiteElementV::Subtitle(pv)),
            None => None,
        },
        CiteElement::Table(t) => match spec_table(t, ctx) {
            Some(tv) => Some(crate::CiteElementV::Table(tv)),
            None => None,
        },
        CiteElement::EmptyLine => Some(crate::CiteElementV::EmptyLine),
    }
}

pub open spec fn spec_annotation_element(e: AnnotationElement, ctx: ContextV) -> Option<
    crate::AnnotationElementV,
> {
    match e {
        AnnotationElement::Paragraph(p) => match spec_paragraph(p, ctx) {
            Some(pv) => Some(crate::AnnotationElementV::Paragraph(pv)),
            None => None,
        },
        AnnotationElement::Poem(p) => match spec_poem(p, ctx) {
            Some(pv) => Some(crate::AnnotationElementV::Poem(pv)),
            None => None,
        },
        AnnotationElement::Cite(c) => match spec_cite(c, ctx) {
            Some(cv) => Some(crate::AnnotationElementV::Cite(cv)),
            None => None,
        },
        AnnotationElement::Subtitle(p) => match spec_paragraph(p, ctx) {
            Some(pv) => Some(crate::AnnotationElementV::Subtitle(pv)),
            None => None,
        },
        AnnotationElement::Table(t) => match spec_table(t, ctx) {
            Some(tv) => Some(crate::AnnotationElementV::Table(tv)),
            None => None,
        },
        AnnotationElement::EmptyLine => Some(crate::AnnotationElementV::EmptyLine),
    }
}

pub open spec fn spec_annotation_elements(s: Seq<AnnotationElement>, ctx: ContextV) -> Seq<
    crate::AnnotationElementV,
>
    decreases s.len(),
{
    if s.len() == 0 {
        Seq::empty()
    } else {
        let rest = spec_annotation_elements(s.drop_last(), ctx);
        match spec_annotation_element(s.last(), ctx) {
            Some(e) => rest.push(e),
            None => rest,
        }
    }
}

/// An annotation survives exactly when at least one of its elements
/// survives.
pub open spec fn spec_annotation(a: Annotation, ctx: ContextV) -> Option<crate::AnnotationV> {
    let content = spec_annotation_elements(a.elements@, ctx);
    if content.len() == 0 {
        None
    } else {
        Some(crate::AnnotationV { anchor: a.id.deep_view(), content })
    }
}

pub open spec fn spec_annotation_opt(o: Option<Annotation>, ctx: ContextV) -> Option<
    crate::AnnotationV,
> {
    match o {
        Some(a) => spec_annotation(a, ctx),
        None => None,
    }
}

pub open spec fn spec_image_opt(o: Option<Image>, binaries: Map<Seq<char>, u128>) -> Option<
    crate::ImageV,
> {
    match o {
        Some(i) => spec_image(i, binaries),
        None => None,
    }
}

/// What one section-level node becomes; a blank line always passes
/// through.
pub open spec fn spec_content(part: SectionPart, ctx: ContextV) -> Option<crate::ContentV> {
    match part {
        SectionPart::Paragraph(p) => match spec_paragraph(p, ctx) {
            Some(pv) => Some(crate::ContentV::Paragraph(pv)),
            None => None,
        },
        SectionPart::Poem(p) => match spec_poem(p, ctx) {
            Some(pv) => Some(crate::ContentV::Poem(pv)),
            None => None,
        },
        SectionPart::Subtitle(p) => match spec_paragraph(p, ctx) {
            Some(pv) => Some(crate::ContentV::Subtitle(pv)),
            None => None,
        },
        SectionPart::Cite(c) => match spec_cite(c, ctx) {
            Some(cv) => Some(crate::ContentV::Cite(cv)),
            None => None,
        },
        SectionPart::Table(t) => match spec_table(t, ctx) {
            Some(tv) => Some(crate::ContentV::Table(tv)),
            None => None,
        },
        SectionPart::Image(i) => match spec_image(i, ctx.binaries) {
            Some(iv) => Some(crate::ContentV::Image(iv)),
            None => None,
        },
        SectionPart::EmptyLine => Some(crate::ContentV::EmptyLine),
    }
}

pub open spec fn spec_contents(s: Seq<SectionPart>, ctx: ContextV) -> Seq<crate::ContentV>
    decreases s.len(),
{
    if s.len() == 0 {
        Seq::empty()
    } else {
        let rest = spec_contents(s.drop_last(), ctx);
        match spec_content(s.last(), ctx) {
            Some(c) => rest.push(c),
            None => rest,
        }
    }
}

/// A section becomes a chapter unless both its converted content and its
/// converted sub-sections are empty; sub-sections are resolved first.
pub open spec fn spec_chapter(section: Section, ctx: ContextV) -> Option<crate::ChapterV>
    decreases section,
{
    match section.content {
        None => None,
        Some(sc) => {
            let content = spec_contents(sc.content@, ctx);
            let subs = spec_chapters(sc.sections@, ctx);
            if content.len() == 0 && subs.len() == 0 {
                None
            } else {
                Some(
                    crate::ChapterV {
                        anchor: section.id.deep_view(),
                        title: spec_title_opt(sc.title, ctx),
                        annotation: spec_annotation_opt(sc.annotation, ctx),
                        cover: spec_image_opt(sc.image, ctx.binaries),
                        epigraphs: spec_epigraphs(sc.epigraphs@, ctx),
                        content,
                        sub_chapters: subs,
                    },
                )
            }
        },
    }
}

pub open spec fn spec_chapters(ss: Seq<Section>, ctx: ContextV) -> Seq<crate::ChapterV>
    decreases ss,
{
    if ss.len() == 0 {
        Seq::empty()
    } else {
        let rest = spec_chapters(ss.drop_last(), ctx);
        match spec_chapter(ss.last(), ctx) {
            Some(c) => rest.push(c),
            None => rest,
        }
    }
}

// ---------------------------------------------------------------------------
// Footnotes, authors, metadata: specification
// ---------------------------------------------------------------------------

/// A section becomes a keyed footnote entry when it has a non-empty key,
/// a section body, and surviving block content.
pub open spec fn spec_footnote(section: Section, ctx: ContextV) -> Option<
    (Seq<char>, crate::FootnoteV),
> {
    match section.id {
        None => None,
        Some(id) => if id@.len() == 0 {
            None
        } else {
            match section.content {
                None => None,
                Some(sc) => {
                    let content = spec_contents(sc.content@, ctx);
                    if content.len() == 0 {
                        None
                    } else {
                        Some(
                            (
                                id@,
                                crate::FootnoteV { title: spec_title_opt(sc.title, ctx), content },
                            ),
                        )
                    }
                },
            }
        },
    }
}

pub open spec fn spec_footnote_pairs(ss: Seq<Section>, ctx: ContextV) -> Seq<
    (Seq<char>, crate::FootnoteV),
>
    decreases ss.len(),
{
    if ss.len() == 0 {
        Seq::empty()
    } else {
        let rest = spec_footnote_pairs(ss.drop_last(), ctx);
        match spec_footnote(ss.last(), ctx) {
            Some(p) => rest.push(p),
            None => rest,
        }
    }
}

/// A footnote body becomes a collection unless no entry survives; a
/// later entry with the same key overrides an earlier one.
pub open spec fn spec_footnotes(body: Body, ctx: ContextV) -> Option<crate::FootnotesV> {
    let pairs = spec_footnote_pairs(body.sections@, ctx);
    if pairs.len() == 0 {
        None
    } else {
        Some(
            crate::FootnotesV {
                title: spec_title_opt(body.title, ctx),
                content: crate::assoc_map(pairs),
            },
        )
    }
}

/// Join a name part onto an assembled name with a single separating
/// space.
pub open spec fn join_part(acc: Seq<char>, part: Option<Seq<char>>) -> Seq<char> {
    match part {
        Some(p) => if acc.len() > 0 {
            acc + seq![' '] + p
        } else {
            acc + p
        },
        None => acc,
    }
}

/// Given, middle and family name parts joined with single spaces, in that
/// fixed order, missing parts omitted.
pub open spec fn spec_full_name(
    given: Option<Seq<char>>,
    middle: Option<Seq<char>>,
    family: Option<Seq<char>>,
) -> Seq<char> {
    join_part(join_part(join_part(Seq::empty(), given), middle), family)
}

/// An author from extracted parts: the joined name, or the non-empty
/// nickname as fallback, or nothing at all.
pub open spec fn spec_author_parts(
    given: Option<Seq<char>>,
    family: Option<Seq<char>>,
    middle: Option<Seq<char>>,
    nickname: Option<Seq<char>>,
) -> Option<crate::AuthorV> {
    let full = spec_full_name(given, middle, family);
    if full.len() > 0 {
        Some(
            crate::AuthorV {
                id: 0,
                full_name: full,
                given_name: given,
                family_name: family,
                middle_name: middle,
            },
        )
    } else {
        match opt_non_empty_view(nickname) {
            Some(n) => Some(
                crate::AuthorV {
                    id: 0,
                    full_name: n,
                    given_name: given,
                    family_name: family,
                    middle_name: middle,
                },
            ),
            None => None,
        }
    }
}

pub open spec fn spec_author(a: Author) -> Option<crate::AuthorV> {
    match a {
        Author::Verbose(v) => spec_author_parts(
            non_empty_view(v.first_name@),
            non_empty_view(v.last_name@),
            opt_non_empty_view(v.middle_name.deep_view()),
            v.nickname.deep_view(),
        ),
        Author::Anonymous(an) => spec_author_parts(None, None, None, an.nickname.deep_view()),
    }
}

pub open spec fn spec_authors(s: Seq<Author>) -> Seq<crate::AuthorV>
    decreases s.len(),
{
    if s.len() == 0 {
        Seq::empty()
    } else {
        let rest = spec_authors(s.drop_last());
        match spec_author(s.last()) {
            Some(a) => rest.push(a),
            None => rest,
        }
    }
}

pub open spec fn spec_date(d: Option<Date>) -> crate::DateV {
    match d {
        Some(d) => crate::DateV { iso_date: d.iso_date, display_date: d.display_date.deep_view() },
        None => crate::DateV { iso_date: None, display_date: None },
    }
}

/// The first cover image that resolves; later candidates are ignored.
pub open spec fn spec_first_image(
    images: Seq<InlineImage>,
    binaries: Map<Seq<char>, u128>,
) -> Option<crate::InlineImageV>
    decreases images.len(),
{
    if images.len() == 0 {
        None
    } else {
        match spec_inline_image(images[0], binaries) {
            Some(i) => Some(i),
            None => spec_first_image(images.drop_first(), binaries),
        }
    }
}

pub open spec fn spec_cover(c: Option<CoverPage>, binaries: Map<Seq<char>, u128>) -> Option<
    crate::InlineImageV,
> {
    match c {
        Some(cp) => spec_first_image(cp.images@, binaries),
        None => None,
    }
}

/// The first body carrying the given name; later ones are ignored.
pub open spec fn spec_find_body(bodies: Seq<Body>, name: Option<Seq<char>>) -> Option<Body>
    decreases bodies.len(),
{
    if bodies.len() == 0 {
        None
    } else if bodies[0].name.deep_view() == name {
        Some(bodies[0])
    } else {
        spec_find_body(bodies.drop_first(), name)
    }
}

/// The keys of an optional footnote collection.
pub open spec fn spec_keys(f: Option<crate::FootnotesV>) -> Set<Seq<char>> {
    match f {
        Some(f) => f.content.dom(),
        None => Set::empty(),
    }
}

/// The context the footnote and comment bodies are converted under:
/// binary names only, no target keys yet.
pub open spec fn spec_empty_ctx(binaries: Map<Seq<char>, u128>) -> ContextV {
    ContextV { binaries, notes: Set::empty(), comments: Set::empty() }
}

pub open spec fn spec_named_footnotes(
    bodies: Seq<Body>,
    name: Seq<char>,
    binaries: Map<Seq<char>, u128>,
) -> Option<crate::FootnotesV> {
    match spec_find_body(bodies, Some(name)) {
        Some(b) => spec_footnotes(b, spec_empty_ctx(binaries)),
        None => None,
    }
}

/// The full context a book's bodies are converted under.
pub open spec fn spec_book_ctx(book: FictionBook, binaries: Map<Seq<char>, u128>) -> ContextV {
    ContextV {
        binaries,
        notes: spec_keys(spec_named_footnotes(book.bodies@, "notes"@, binaries)),
        comments: spec_keys(spec_named_footnotes(book.bodies@, "comments"@, binaries)),
    }
}

/// The canonical book a source document converts to, its opaque language
/// value aside.
pub open spec fn spec_book(
    book: FictionBook,
    book_id: u128,
    binaries: Map<Seq<char>, u128>,
) -> crate::BookV {
    let ti = book.description.title_info;
    let ctx = spec_book_ctx(book, binaries);
    let main = spec_find_body(book.bodies@, None);
    crate::BookV {
        id: book_id,
        short_title: ti.book_title@,
        date: spec_date(ti.date),
        authors: spec_authors(ti.authors@),
        cover: spec_cover(ti.cover_page, binaries),
        annotation: spec_annotation_opt(ti.annotation, ctx),
        title: match main {
            Some(b) => spec_title_opt(b.title, ctx),
            None => None,
        },
        epigraphs: match main {
            Some(b) => spec_epigraphs(b.epigraphs@, ctx),
            None => Seq::empty(),
        },
        notes: spec_named_footnotes(book.bodies@, "notes"@, binaries),
        comments: spec_named_footnotes(book.bodies@, "comments"@, binaries),
        chapters: match main {
            Some(b) => spec_chapters(b.sections@, ctx),
            None => Seq::empty(),
        },
    }
}

/// Whether the title-info's raw language tag yields a language: it must
/// be non-empty and parse.
pub open spec fn spec_title_lang_ok(book: FictionBook) -> bool {
    book.description.title_info.lang@.len() > 0 && crate::language_tag_ok(
        book.description.title_info.lang@,
    )
}

// ---------------------------------------------------------------------------
// Stated laws
// ---------------------------------------------------------------------------

/// Drop invariant: a surviving paragraph is never empty.
pub proof fn lemma_drop_paragraph(p: Paragraph, ctx: ContextV)
    ensures
        spec_paragraph(p, ctx) matches Some(v) ==> v.content.len() > 0,
{
}

/// Drop invariant: a surviving title is never empty.
pub proof fn lemma_drop_title(t: Title, ctx: ContextV)
    ensures
        spec_title(t, ctx) matches Some(v) ==> v.content.len() > 0,
{
}

/// Drop invariant: a surviving annotation is never empty.
pub proof fn lemma_drop_annotation(a: Annotation, ctx: ContextV)
    ensures
        spec_annotation(a, ctx) matches Some(v) ==> v.content.len() > 0,
{
}

/// Drop invariant: a surviving epigraph is never empty.
pub proof fn lemma_drop_epigraph(e: Epigraph, ctx: ContextV)
    ensures
        spec_epigraph(e, ctx) matches Some(v) ==> v.content.len() > 0,
{
}

/// Drop invariant: a surviving poem is never empty.
pub proof fn lemma_drop_poem(p: Poem, ctx: ContextV)
    ensures
        spec_poem(p, ctx) matches Some(v) ==> v.content.len() > 0,
{
}

/// Drop invariant: a surviving citation is never empty.
pub proof fn lemma_drop_cite(c: Cite, ctx: ContextV)
    ensures
        spec_cite(c, ctx) matches Some(v) ==> v.content.len() > 0,
{
}

/// Drop invariant: a surviving chapter keeps block content, sub-chapters
/// or both; a section whose content and sub-sections all resolve to
/// nothing collapses to absence.
pub proof fn lemma_drop_chapter(s: Section, ctx: ContextV)
    ensures
        spec_chapter(s, ctx) matches Some(v) ==> v.content.len() > 0 || v.sub_chapters.len() > 0,
{
}

/// Drop invariant: a surviving footnote collection holds at least one
/// entry.
pub proof fn lemma_drop_footnotes(b: Body, ctx: ContextV)
    ensures
        spec_footnotes(b, ctx) matches Some(v) ==> exists|k: Seq<char>| v.content.contains_key(k),
{
    let pairs = spec_footnote_pairs(b.sections@, ctx);
    if pairs.len() > 0 {
        assert(crate::assoc_map(pairs).contains_key(pairs.last().0));
        assert(spec_footnotes(b, ctx)->Some_0.content.contains_key(pairs.last().0));
    }
}

/// The deliberate exception to the drop invariant: a table survives as
/// soon as one row does, and a cell is never dropped — every source cell
/// of a surviving row reappears, empty or not.
pub proof fn lemma_cells_kept(s: Seq<TableCellElement>, ctx: ContextV)
    ensures
        spec_cells(s, ctx).len() == s.len(),
    decreases s.len(),
{
    if s.len() > 0 {
        lemma_cells_kept(s.drop_last(), ctx);
    }
}

/// Drop invariant for tables: a surviving table holds at least one row,
/// and each surviving row keeps exactly the cells of its source row.
pub proof fn lemma_drop_table(t: Table, ctx: ContextV)
    ensures
        spec_table(t, ctx) matches Some(v) ==> v.rows.len() > 0,
        forall|i: int|
            0 <= i < t.rows@.len() ==> (match #[trigger] spec_row(t.rows@[i], ctx) {
                Some(r) => r.cells.len() == t.rows@[i].cells@.len(),
                None => t.rows@[i].cells@.len() == 0,
            }),
{
    assert forall|i: int| 0 <= i < t.rows@.len() implies (match #[trigger] spec_row(
        t.rows@[i],
        ctx,
    ) {
        Some(r) => r.cells.len() == t.rows@[i].cells@.len(),
        None => t.rows@[i].cells@.len() == 0,
    }) by {
        lemma_cells_kept(t.rows@[i].cells@, ctx);
    }
}

/// Drop propagation: a run of sections converts to no chapters exactly
/// when every one of them converts to nothing — so a chain of purely
/// structural ancestors collapses once no leaf survives.
pub proof fn lemma_chapters_empty_iff_all_dropped(ss: Seq<Section>, ctx: ContextV)
    ensures
        (spec_chapters(ss, ctx).len() == 0) <==> (forall|i: int|
            0 <= i < ss.len() ==> #[trigger] spec_chapter(ss[i], ctx) is None),
    decreases ss.len(),
{
    if ss.len() > 0 {
        lemma_chapters_empty_iff_all_dropped(ss.drop_last(), ctx);
        assert(ss.last() == ss[ss.len() - 1]);
        assert forall|i: int| 0 <= i < ss.len() - 1 implies ss.drop_last()[i] == ss[i] by {}
        if spec_chapters(ss, ctx).len() == 0 {
            assert(spec_chapter(ss[ss.len() - 1], ctx) is None);
        }
    }
}

/// Link disambiguation determinism: when the target key is bound as a
/// binary resource, the image branch wins outright — whatever else the
/// context holds of the same key — and the collected text becomes the
/// image's alt text.
pub proof fn lemma_link_image_wins(
    href: crate::HrefV,
    collected: Seq<crate::SpanV>,
    kind: Option<Seq<char>>,
    ctx: ContextV,
)
    requires
        ctx.binaries.contains_key(crate::href_key(href)),
    ensures
        spec_link_target_spans(href, collected, kind, ctx) == seq![
            crate::SpanV::Image(
                crate::InlineImageV {
                    id: ctx.binaries[crate::href_key(href)],
                    alt: non_empty_view(concat_text_values(texts_of(collected))),
                },
            ),
        ],
{
}

/// Author fallback: with no name parts but a non-empty nickname, exactly
/// one author is produced, its full name the nickname and every name
/// part absent.
pub proof fn lemma_author_fallback(nickname: Seq<char>)
    requires
        nickname.len() > 0,
    ensures
        spec_author_parts(None, None, None, Some(nickname)) == Some(
            crate::AuthorV {
                id: 0,
                full_name: nickname,
                given_name: None,
                family_name: None,
                middle_name: None,
            },
        ),
{
}

/// Author fallback: with no name parts and no usable nickname, no author
/// is produced at all.
pub proof fn lemma_author_dropped(nickname: Option<Seq<char>>)
    requires
        opt_non_empty_view(nickname) is None,
    ensures
        spec_author_parts(None, None, None, nickname) is None,
{
}

/// An empty document: with a title-info but no bodies, the book keeps
/// only the title-info metadata — no chapters, no title block, no
/// epigraphs, no notes, no comments.
pub proof fn lemma_empty_document(book: FictionBook, book_id: u128, binaries: Map<Seq<char>, u128>)
    requires
        book.bodies@.len() == 0,
    ensures
        spec_book(book, book_id, binaries).chapters.len() == 0,
        spec_book(book, book_id, binaries).title is None,
        spec_book(book, book_id, binaries).epigraphs.len() == 0,
        spec_book(book, book_id, binaries).notes is None,
        spec_book(book, book_id, binaries).comments is None,
{
}

// ---------------------------------------------------------------------------
// Text runs, hyperlink targets, images: conversion
// ---------------------------------------------------------------------------

impl crate::Text {
    /// A bare text run becomes one unstyled run, or nothing when empty.
    pub fn from_fb2(value: String) -> (r: Option<crate::Text>)
        ensures
            r.deep_view() == spec_text(value@),
    {
        match non_empty(value) {
            Some(v) => Some(crate::Text::from(v)),
            None => None,
        }
    }
}

impl crate::Href {
    /// Resolve a raw target: `#`-prefixed targets become local anchors,
    /// anything else must parse as a URL; empty targets resolve to
    /// nothing.
    pub fn from_fb2(href: &str) -> (r: Option<crate::Href>)
        ensures
            r.deep_view() == spec_href(href@),
    {
        let n = href.unicode_len();
        if n == 0 {
            None
        } else if href.get_char(0) == '#' {
            let rest = href.substring_char(1, n).to_owned();
            proof {
                assert(rest@ =~= href@.skip(1));
            }
            Some(crate::Href::Local(rest))
        } else {
            match crate::url_normalize(href) {
                Some(u) => Some(crate::Href::Remote(u)),
                None => None,
            }
        }
    }
}

impl crate::InlineImage {
    /// An inline image survives only when its resource name is bound.
    pub fn from_fb2(image: &InlineImage, binary_ids: &crate::BinaryIndex) -> (r: Option<
        crate::InlineImage,
    >)
        ensures
            r.deep_view() == spec_inline_image(*image, binary_ids@),
    {
        match &image.href {
            Some(h) => {
                if h.as_str().is_empty() {
                    None
                } else {
                    match binary_ids.get(h.as_str()) {
                        Some(id) => Some(
                            crate::InlineImage { id, alt: clone_opt_string(&image.alt) },
                        ),
                        None => None,
                    }
                }
            },
            None => None,
        }
    }
}

impl crate::Image {
    /// A block image survives only when its resource name is bound.
    pub fn from_fb2(value: &Image, binary_ids: &crate::BinaryIndex) -> (r: Option<crate::Image>)
        ensures
            r.deep_view() == spec_image(*value, binary_ids@),
    {
        match &value.href {
            Some(h) => {
                if h.as_str().is_empty() {
                    None
                } else {
                    match binary_ids.get(h.as_str()) {
                        Some(id) => Some(
                            crate::Image {
                                id,
                                anchor: clone_opt_string(&value.id),
                                alt: clone_opt_string(&value.alt),
                                title: clone_opt_string(&value.title),
                            },
                        ),
                        None => None,
                    }
                }
            },
            None => None,
        }
    }
}

// ---------------------------------------------------------------------------
// Facet application: conversion
// ---------------------------------------------------------------------------

fn apply_to_text(t: crate::Text, f: crate::StyleFacet) -> (r: crate::Text)
    ensures
        r.deep_view() == crate::apply_facet_text(f, t.deep_view()),
{
    match f {
        crate::StyleFacet::Bold => crate::Text { font_weight: Some(crate::BOLD_WEIGHT), ..t },
        crate::StyleFacet::Italic => {
            let style = crate::FontStyleSet { italic: true, ..t.font_style };
            crate::Text { font_style: style, ..t }
        },
        crate::StyleFacet::Code => {
            let style = crate::FontStyleSet { code: true, ..t.font_style };
            crate::Text { font_style: style, ..t }
        },
        crate::StyleFacet::Strikethrough => {
            let deco = crate::TextDecorationSet { line_through: true };
            crate::Text { decorations: deco, ..t }
        },
        crate::StyleFacet::Subscript => crate::Text {
            baseline_shift: Some(crate::BaselineShift::Subscript),
            ..t
        },
        crate::StyleFacet::Superscript => crate::Text {
            baseline_shift: Some(crate::BaselineShift::Superscript),
            ..t
        },
    }
}

fn apply_to_texts(v: Vec<crate::Text>, f: crate::StyleFacet) -> (r: Vec<crate::Text>)
    ensures
        r.deep_view() == crate::apply_facet_texts(f, v.deep_view()),
{
    let ghost orig = v.deep_view();
    let mut rest = v;
    let mut out: Vec<crate::Text> = Vec::new();
    while rest.len() > 0
        invariant
            rest@.len() <= orig.len(),
            rest.deep_view() =~= orig.skip(orig.len() - rest@.len()),
            out.deep_view() == crate::apply_facet_texts(f, orig.take(orig.len() - rest@.len())),
        decreases rest@.len(),
    {
        let ghost k = orig.len() - rest@.len();
        let ghost prevq = rest@;
        let ghost prevd = rest.deep_view();
        let t = rest.remove(0);
        proof {
            assert(t.deep_view() == prevd[0]);
            assert(t.deep_view() == orig[k as int]);
            assert forall|j: int| 0 <= j < rest@.len() implies #[trigger] rest.deep_view()[j]
                == orig[k as int + 1 + j] by {
                assert(rest@[j] == prevq[j + 1]);
                assert(prevd[j + 1] == prevq[j + 1].deep_view());
            }
            assert(rest.deep_view() =~= orig.skip(k as int + 1));
        }
        let x = apply_to_text(t, f);
        let ghost prevout = out@;
        let ghost prevoutd = out.deep_view();
        out.push(x);
        proof {
            let target = crate::apply_facet_texts(f, orig.take(k as int + 1));
            assert forall|j: int| 0 <= j < out.deep_view().len() implies #[trigger] out.deep_view()[j]
                == target[j] by {
                assert(out.deep_view()[j] == out@[j].deep_view());
                if j < k as int {
                    assert(prevout.push(x)[j] == prevout[j]);
                    assert(out@[j] == prevout[j]);
                    assert(prevoutd[j] == prevout[j].deep_view());
                    assert(orig.take(k as int + 1)[j] == orig.take(k as int)[j]);
                    assert(prevoutd[j] == crate::apply_facet_texts(f, orig.take(k as int))[j]);
                } else {
                    assert(prevout.push(x)[j] == x);
                    assert(out@[j] == x);
                    assert(orig.take(k as int + 1)[j] == orig[k as int]);
                }
            }
            assert(out.deep_view() =~= target);
        }
    }
    proof {
        assert(orig.take(orig.len() as int) =~= orig);
    }
    out
}

/// Apply one styling facet to a span: it reaches every text run,
/// including those inside footnote references and links, but not images.
pub fn hydrate_text(span: crate::Span, facet: crate::StyleFacet) -> (r: crate::Span)
    ensures
        r.deep_view() == crate::apply_facet_span(facet, span.deep_view()),
{
    match span {
        crate::Span::Footnote(fl) => crate::Span::Footnote(
            crate::FootnoteLink {
                id: fl.id,
                kind: fl.kind,
                content: apply_to_texts(fl.content, facet),
            },
        ),
        crate::Span::Link(l) => crate::Span::Link(
            crate::Link { href: l.href, content: apply_to_texts(l.content, facet) },
        ),
        crate::Span::Image(i) => crate::Span::Image(i),
        crate::Span::Text(t) => crate::Span::Text(apply_to_text(t, facet)),
    }
}

pub fn bold_text(span: crate::Span) -> (r: crate::Span)
    ensures
        r.deep_view() == crate::apply_facet_span(crate::StyleFacet::Bold, span.deep_view()),
{
    hydrate_text(span, crate::StyleFacet::Bold)
}

pub fn italic_text(span: crate::Span) -> (r: crate::Span)
    ensures
        r.deep_view() == crate::apply_facet_span(crate::StyleFacet::Italic, span.deep_view()),
{
    hydrate_text(span, crate::StyleFacet::Italic)
}

pub fn code_text(span: crate::Span) -> (r: crate::Span)
    ensures
        r.deep_view() == crate::apply_facet_span(crate::StyleFacet::Code, span.deep_view()),
{
    hydrate_text(span, crate::StyleFacet::Code)
}

pub fn strikethrough_text(span: crate::Span) -> (r: crate::Span)
    ensures
        r.deep_view() == crate::apply_facet_span(
            crate::StyleFacet::Strikethrough,
            span.deep_view(),
        ),
{
    hydrate_text(span, crate::StyleFacet::Strikethrough)
}

pub fn subscript_text(span: crate::Span) -> (r: crate::Span)
    ensures
        r.deep_view() == crate::apply_facet_span(crate::StyleFacet::Subscript, span.deep_view()),
{
    hydrate_text(span, crate::StyleFacet::Subscript)
}

pub fn superscript_text(span: crate::Span) -> (r: crate::Span)
    ensures
        r.deep_view() == crate::apply_facet_span(crate::StyleFacet::Superscript, span.deep_view()),
{
    hydrate_text(span, crate::StyleFacet::Superscript)
}

fn apply_facet_all(spans: Vec<crate::Span>, f: crate::StyleFacet) -> (r: Vec<crate::Span>)
    ensures
        r.deep_view() == crate::apply_facet_spans(f, spans.deep_view()),
{
    let ghost orig = spans.deep_view();
    let mut rest = spans;
    let mut out: Vec<crate::Span> = Vec::new();
    while rest.len() > 0
        invariant
            rest@.len() <= orig.len(),
            rest.deep_view() =~= orig.skip(orig.len() - rest@.len()),
            out.deep_view() == crate::apply_facet_spans(f, orig.take(orig.len() - rest@.len())),
        decreases rest@.len(),
    {
        let ghost k = orig.len() - rest@.len();
        let ghost prevq = rest@;
        let ghost prevd = rest.deep_view();
        let s = rest.remove(0);
        proof {
            assert(s.deep_view() == prevd[0]);
            assert(s.deep_view() == orig[k as int]);
            assert forall|j: int| 0 <= j < rest@.len() implies #[trigger] rest.deep_view()[j]
                == orig[k as int + 1 + j] by {
                assert(rest@[j] == prevq[j + 1]);
                assert(prevd[j + 1] == prevq[j + 1].deep_view());
            }
            assert(rest.deep_view() =~= orig.skip(k as int + 1));
        }
        let x = hydrate_text(s, f);
        let ghost prevout = out@;
        let ghost prevoutd = out.deep_view();
        out.push(x);
        proof {
            let target = crate::apply_facet_spans(f, orig.take(k as int + 1));
            assert forall|j: int| 0 <= j < out.deep_view().len() implies #[trigger] out.deep_view()[j]
                == target[j] by {
                assert(out.deep_view()[j] == out@[j].deep_view());
                if j < k as int {
                    assert(prevout.push(x)[j] == prevout[j]);
                    assert(out@[j] == prevout[j]);
                    assert(prevoutd[j] == prevout[j].deep_view());
                    assert(orig.take(k as int + 1)[j] == orig.take(k as int)[j]);
                    assert(prevoutd[j] == crate::apply_facet_spans(f, orig.take(k as int))[j]);
                } else {
                    assert(prevout.push(x)[j] == x);
                    assert(out@[j] == x);
                    assert(orig.take(k as int + 1)[j] == orig[k as int]);
                }
            }
            assert(out.deep_view() =~= target);
        }
    }
    proof {
        assert(orig.take(orig.len() as int) =~= orig);
    }
    out
}

// ---------------------------------------------------------------------------
// Inline spans: conversion
// ---------------------------------------------------------------------------

fn spans_from_elements(elements: &Vec<StyleElement>, ctx: &Context<'_>) -> (r: Vec<crate::Span>)
    ensures
        r.deep_view() == spec_spans_seq(elements@, ctx@),
    decreases elements@,
{
    let mut out: Vec<crate::Span> = Vec::new();
    let mut i: usize = 0;
    while i < elements.len()
        invariant
            i <= elements@.len(),
            out.deep_view() == spec_spans_seq(elements@.take(i as int), ctx@),
        decreases elements@.len() - i,
    {
        let mut spans = crate::Span::from_fb2(&elements[i], ctx);
        let ghost o1 = out.deep_view();
        let ghost s1 = spans.deep_view();
        let ghost oq = out@;
        let ghost sq = spans@;
        out.append(&mut spans);
        proof {
            assert(o1 == crate::dseq(oq));
            assert(s1 == crate::dseq(sq));
            assert(crate::dseq(oq + sq) == crate::dseq(oq) + crate::dseq(sq));
            assert(out.deep_view() == o1 + s1);
            assert(elements@.take(i as int + 1).drop_last() =~= elements@.take(i as int));
            assert(elements@.take(i as int + 1).last() == elements@[i as int]);
        }
        i = i + 1;
    }
    proof {
        assert(elements@.take(elements@.len() as int) =~= elements@);
    }
    out
}

fn link_spans_from_elements(
    elements: &Vec<StyleLinkElement>,
    binary_ids: &crate::BinaryIndex,
) -> (r: Vec<crate::Span>)
    ensures
        r.deep_view() == spec_link_spans_seq(elements@, binary_ids@),
    decreases elements@,
{
    let mut out: Vec<crate::Span> = Vec::new();
    let mut i: usize = 0;
    while i < elements.len()
        invariant
            i <= elements@.len(),
            out.deep_view() == spec_link_spans_seq(elements@.take(i as int), binary_ids@),
        decreases elements@.len() - i,
    {
        let mut spans = crate::Span::from_fb2_link(&elements[i], binary_ids);
        let ghost o1 = out.deep_view();
        let ghost s1 = spans.deep_view();
        let ghost oq = out@;
        let ghost sq = spans@;
        out.append(&mut spans);
        proof {
            assert(o1 == crate::dseq(oq));
            assert(s1 == crate::dseq(sq));
            assert(crate::dseq(oq + sq) == crate::dseq(oq) + crate::dseq(sq));
            assert(out.deep_view() == o1 + s1);
            assert(elements@.take(i as int + 1).drop_last() =~= elements@.take(i as int));
            assert(elements@.take(i as int + 1).last() == elements@[i as int]);
        }
        i = i + 1;
    }
    proof {
        assert(elements@.take(elements@.len() as int) =~= elements@);
    }
    out
}

impl crate::Span {
    /// Resolve one inline node into zero or more flat spans.
    pub fn from_fb2(element: &StyleElement, ctx: &Context<'_>) -> (r: Vec<crate::Span>)
        ensures
            r.deep_view() == spec_spans(*element, ctx@),
        decreases *element,
    {
        match element {
            StyleElement::Strong(s) => apply_facet_all(
                spans_from_elements(&s.elements, ctx),
                crate::StyleFacet::Bold,
            ),
            StyleElement::Emphasis(s) => apply_facet_all(
                spans_from_elements(&s.elements, ctx),
                crate::StyleFacet::Italic,
            ),
            StyleElement::Style(s) => spans_from_elements(&s.elements, ctx),
            StyleElement::Link(l) => Self::from_fb2_link_node(l, ctx),
            StyleElement::Strikethrough(s) => apply_facet_all(
                spans_from_elements(&s.elements, ctx),
                crate::StyleFacet::Strikethrough,
            ),
            StyleElement::Subscript(s) => apply_facet_all(
                spans_from_elements(&s.elements, ctx),
                crate::StyleFacet::Subscript,
            ),
            StyleElement::Superscript(s) => apply_facet_all(
                spans_from_elements(&s.elements, ctx),
                crate::StyleFacet::Superscript,
            ),
            StyleElement::Code(s) => apply_facet_all(
                spans_from_elements(&s.elements, ctx),
                crate::StyleFacet::Code,
            ),
            StyleElement::Image(i) => {
                match crate::InlineImage::from_fb2(i, ctx.binaries) {
                    Some(img) => {
                        let mut out: Vec<crate::Span> = Vec::new();
                        out.push(crate::Span::Image(img));
                        proof {
                            assert(out.deep_view() =~= spec_spans(*element, ctx@));
                        }
                        out
                    },
                    None => {
                        let out: Vec<crate::Span> = Vec::new();
                        proof {
                            assert(out.deep_view() =~= spec_spans(*element, ctx@));
                        }
                        out
                    },
                }
            },
            StyleElement::Text(t) => {
                match crate::Text::from_fb2(t.clone()) {
                    Some(tx) => {
                        let mut out: Vec<crate::Span> = Vec::new();
                        out.push(crate::Span::Text(tx));
                        proof {
                            assert(out.deep_view() =~= spec_spans(*element, ctx@));
                        }
                        out
                    },
                    None => {
                        let out: Vec<crate::Span> = Vec::new();
                        proof {
                            assert(out.deep_view() =~= spec_spans(*element, ctx@));
                        }
                        out
                    },
                }
            },
        }
    }

    /// Resolve a hyperlink wrapper: collect its children with the
    /// restricted resolver, resolve the target, and disambiguate it.
    fn from_fb2_link_node(l: &LinkNode, ctx: &Context<'_>) -> (r: Vec<crate::Span>)
        ensures
            r.deep_view() == spec_link(*l, ctx@),
        decreases *l,
    {
        let href_opt = match &l.href {
            Some(h) => crate::Href::from_fb2(h.as_str()),
            None => None,
        };
        let collected = link_spans_from_elements(&l.elements, ctx.binaries);
        let href = match href_opt {
            None => {
                return collected;
            },
            Some(href) => href,
        };

        // Partition the collected spans into images and plain text runs;
        // footnote and link spans cannot occur here and are dropped.
        let ghost cv = collected.deep_view();
        let mut rest = collected;
        let mut images: Vec<crate::Span> = Vec::new();
        let mut texts: Vec<crate::Text> = Vec::new();
        while rest.len() > 0
            invariant
                rest@.len() <= cv.len(),
                rest.deep_view() == cv.skip(cv.len() - rest@.len()),
                images.deep_view() == images_of(cv.take(cv.len() - rest@.len())),
                texts.deep_view() == texts_of(cv.take(cv.len() - rest@.len())),
            decreases rest@.len(),
        {
            let ghost k = (cv.len() - rest@.len()) as int;
            let ghost prevq = rest@;
            let s = rest.remove(0);
            proof {
                assert(s == prevq[0]);
                assert(s.deep_view() == crate::dseq(prevq)[0]);
                assert(s.deep_view() == cv[k]);
                assert(rest@ =~= prevq.skip(1));
                assert(crate::dseq(prevq.skip(1)) == crate::dseq(prevq).skip(1));
                assert(cv.skip(k).skip(1) =~= cv.skip(k + 1));
                assert(rest.deep_view() == cv.skip(k + 1));
                assert(cv.take(k + 1).drop_last() =~= cv.take(k));
                assert(cv.take(k + 1).last() == cv[k]);
            }
            let ghost pim = images@;
            let ghost ptx = texts@;
            match s {
                crate::Span::Footnote(_) => {
                    proof {
                        assert(images.deep_view() == images_of(cv.take(k + 1)));
                        assert(texts.deep_view() == texts_of(cv.take(k + 1)));
                    }
                },
                crate::Span::Link(_) => {
                    proof {
                        assert(images.deep_view() == images_of(cv.take(k + 1)));
                        assert(texts.deep_view() == texts_of(cv.take(k + 1)));
                    }
                },
                crate::Span::Image(i) => {
                    images.push(crate::Span::Image(i));
                    proof {
                        assert(images@ == pim.push(images@.last()));
                        assert(crate::dseq(pim.push(images@.last())) == crate::dseq(pim).push(
                            images@.last().deep_view(),
                        ));
                        assert(images.deep_view() == images_of(cv.take(k + 1)));
                        assert(texts.deep_view() == texts_of(cv.take(k + 1)));
                    }
                },
                crate::Span::Text(t) => {
                    texts.push(t);
                    proof {
                        assert(texts@ == ptx.push(texts@.last()));
                        assert(crate::dseq(ptx.push(texts@.last())) == crate::dseq(ptx).push(
                            texts@.last().deep_view(),
                        ));
                        assert(images.deep_view() == images_of(cv.take(k + 1)));
                        assert(texts.deep_view() == texts_of(cv.take(k + 1)));
                    }
                },
            }
        }
        proof {
            assert(cv.take(cv.len() as int) =~= cv);
            assert(images.deep_view() == images_of(cv));
            assert(texts.deep_view() == texts_of(cv));
        }

        let key = href.as_ref().to_owned();
        match ctx.binaries.get(key.as_str()) {
            Some(id) => {
                // The target is a binary resource: the image wins outright
                // and the collected text becomes its alt text.
                let mut alt = String::new();
                let mut i: usize = 0;
                while i < texts.len()
                    invariant
                        i <= texts@.len(),
                        alt@ == concat_text_values(texts.deep_view().take(i as int)),
                    decreases texts@.len() - i,
                {
                    alt.append(texts[i].value.as_str());
                    proof {
                        let tv = texts.deep_view();
                        assert(tv.take(i as int + 1).drop_last() =~= tv.take(i as int));
                        assert(tv.take(i as int + 1).last() == tv[i as int]);
                        assert(tv[i as int].value == texts@[i as int].value@);
                    }
                    i = i + 1;
                }
                proof {
                    assert(texts.deep_view().take(texts@.len() as int) =~= texts.deep_view());
                }
                let mut out: Vec<crate::Span> = Vec::new();
                out.push(crate::Span::Image(crate::InlineImage { id, alt: non_empty(alt) }));
                proof {
                    assert(out.deep_view() =~= spec_link(*l, ctx@));
                }
                out
            },
            None => {
                if texts.len() > 0 {
                    let mut out: Vec<crate::Span>;
                    if ctx.notes.contains(key.as_str()) {
                        out = Vec::new();
                        out.push(
                            crate::Span::Footnote(
                                crate::FootnoteLink {
                                    id: key,
                                    kind: crate::FootnoteKind::Note,
                                    content: texts,
                                },
                            ),
                        );
                    } else if ctx.comments.contains(key.as_str()) {
                        out = Vec::new();
                        out.push(
                            crate::Span::Footnote(
                                crate::FootnoteLink {
                                    id: key,
                                    kind: crate::FootnoteKind::Comment,
                                    content: texts,
                                },
                            ),
                        );
                    } else {
                        let note_kind = match &l.kind {
                            Some(kd) => str_eq(kd.as_str(), "note"),
                            None => false,
                        };
                        if note_kind {
                            // Inline commentary: the text passes through.
                            out = Vec::new();
                            let ghost tv = texts.deep_view();
                            let mut rest2 = texts;
                            while rest2.len() > 0
                                invariant
                                    rest2@.len() <= tv.len(),
                                    rest2.deep_view() == tv.skip(tv.len() - rest2@.len()),
                                    out.deep_view() == texts_of(cv).map_values(
                                        |t: crate::TextV| crate::SpanV::Text(t),
                                    ).take(tv.len() - rest2@.len()),
                                    tv == texts_of(cv),
                                decreases rest2@.len(),
                            {
                                let ghost k = (tv.len() - rest2@.len()) as int;
                                let ghost prevq = rest2@;
                                let ghost pout = out@;
                                let t = rest2.remove(0);
                                proof {
                                    assert(t == prevq[0]);
                                    assert(t.deep_view() == crate::dseq(prevq)[0]);
                                    assert(t.deep_view() == tv[k]);
                                    assert(rest2@ =~= prevq.skip(1));
                                    assert(crate::dseq(prevq.skip(1)) == crate::dseq(
                                        prevq,
                                    ).skip(1));
                                    assert(tv.skip(k).skip(1) =~= tv.skip(k + 1));
                                    assert(rest2.deep_view() == tv.skip(k + 1));
                                }
                                out.push(crate::Span::Text(t));
                                proof {
                                    assert(out@ == pout.push(out@.last()));
                                    assert(crate::dseq(pout.push(out@.last())) == crate::dseq(
                                        pout,
                                    ).push(out@.last().deep_view()));
                                    let target = texts_of(cv).map_values(
                                        |t2: crate::TextV| crate::SpanV::Text(t2),
                                    );
                                    assert(out.deep_view() =~= target.take(k + 1));
                                }
                            }
                            proof {
                                let target = texts_of(cv).map_values(
                                    |t2: crate::TextV| crate::SpanV::Text(t2),
                                );
                                assert(target.take(target.len() as int) =~= target);
                            }
                        } else {
                            out = Vec::new();
                            out.push(crate::Span::Link(crate::Link { href, content: texts }));
                        }
                    }
                    let ghost o1 = out.deep_view();
                    let ghost oq = out@;
                    let ghost iq = images@;
                    let ghost i1 = images.deep_view();
                    out.append(&mut images);
                    proof {
                        assert(o1 == crate::dseq(oq));
                        assert(i1 == crate::dseq(iq));
                        assert(crate::dseq(oq + iq) == crate::dseq(oq) + crate::dseq(iq));
                        assert(out.deep_view() == o1 + i1);
                        assert(out.deep_view() =~= spec_link(*l, ctx@));
                    }
                    out
                } else {
                    proof {
                        assert(images.deep_view() =~= spec_link(*l, ctx@));
                    }
                    images
                }
            },
        }
    }

    /// Resolve one inline node inside a hyperlink: styling, text and
    /// images only.
    pub fn from_fb2_link(
        element: &StyleLinkElement,
        binary_ids: &crate::BinaryIndex,
    ) -> (r: Vec<crate::Span>)
        ensures
            r.deep_view() == spec_link_element_spans(*element, binary_ids@),
        decreases *element,
    {
        match element {
            StyleLinkElement::Strong(es) => apply_facet_all(
                link_spans_from_elements(es, binary_ids),
                crate::StyleFacet::Bold,
            ),
            StyleLinkElement::Emphasis(es) => apply_facet_all(
                link_spans_from_elements(es, binary_ids),
                crate::StyleFacet::Italic,
            ),
            StyleLinkElement::Style(es) => link_spans_from_elements(es, binary_ids),
            StyleLinkElement::Strikethrough(es) => apply_facet_all(
                link_spans_from_elements(es, binary_ids),
                crate::StyleFacet::Strikethrough,
            ),
            StyleLinkElement::Subscript(es) => apply_facet_all(
                link_spans_from_elements(es, binary_ids),
                crate::StyleFacet::Subscript,
            ),
            StyleLinkElement::Superscript(es) => apply_facet_all(
                link_spans_from_elements(es, binary_ids),
                crate::StyleFacet::Superscript,
            ),
            StyleLinkElement::Code(es) => apply_facet_all(
                link_spans_from_elements(es, binary_ids),
                crate::StyleFacet::Code,
            ),
            StyleLinkElement::Image(i) => {
                match crate::InlineImage::from_fb2(i, binary_ids) {
                    Some(img) => {
                        let mut out: Vec<crate::Span> = Vec::new();
                        out.push(crate::Span::Image(img));
                        proof {
                            assert(out.deep_view() =~= spec_link_element_spans(
                                *element,
                                binary_ids@,
                            ));
                        }
                        out
                    },
                    None => {
                        let out: Vec<crate::Span> = Vec::new();
                        proof {
                            assert(out.deep_view() =~= spec_link_element_spans(
                                *element,
                                binary_ids@,
                            ));
                        }
                        out
                    },
                }
            },
            StyleLinkElement::Text(t) => {
                match crate::Text::from_fb2(t.clone()) {
                    Some(tx) => {
                        let mut out: Vec<crate::Span> = Vec::new();
                        out.push(crate::Span::Text(tx));
                        proof {
                            assert(out.deep_view() =~= spec_link_element_spans(
                                *element,
                                binary_ids@,
                            ));
                        }
                        out
                    },
                    None => {
                        let out: Vec<crate::Span> = Vec::new();
                        proof {
                            assert(out.deep_view() =~= spec_link_element_spans(
                                *element,
                                binary_ids@,
                            ));
                        }
                        out
                    },
                }
            },
        }
    }
}

// ---------------------------------------------------------------------------
// Block-level content: conversion
// ---------------------------------------------------------------------------

impl crate::Paragraph {
    /// A paragraph survives only when its inline content does.
    pub fn from_fb2(paragraph: &Paragraph, ctx: &Context<'_>) -> (r: Option<crate::Paragraph>)
        ensures
            r.deep_view() == spec_paragraph(*paragraph, ctx@),
    {
        let content = spans_from_elements(&paragraph.elements, ctx);
        if content.len() == 0 {
            None
        } else {
            let p = crate::Paragraph { anchor: clone_opt_string(&paragraph.id), content };
            proof {
                assert(p.deep_view() =~= spec_paragraph(*paragraph, ctx@)->Some_0);
            }
            Some(p)
        }
    }
}

fn paragraphs_from_fb2(v: &Vec<Paragraph>, ctx: &Context<'_>) -> (r: Vec<crate::Paragraph>)
    ensures
        r.deep_view() == spec_paragraphs(v@, ctx@),
{
    let mut out: Vec<crate::Paragraph> = Vec::new();
    let mut i: usize = 0;
    while i < v.len()
        invariant
            i <= v@.len(),
            out.deep_view() == spec_paragraphs(v@.take(i as int), ctx@),
        decreases v@.len() - i,
    {
        let ghost pout = out@;
        match crate::Paragraph::from_fb2(&v[i], ctx) {
            Some(p) => {
                out.push(p);
            },
            None => {},
        }
        proof {
            assert(v@.take(i as int + 1).drop_last() =~= v@.take(i as int));
            assert(v@.take(i as int + 1).last() == v@[i as int]);
            if out@.len() > pout.len() {
                assert(out@ == pout.push(out@.last()));
                assert(crate::dseq(pout.push(out@.last())) == crate::dseq(pout).push(
                    out@.last().deep_view(),
                ));
            }
            assert(out.deep_view() == spec_paragraphs(v@.take(i as int + 1), ctx@));
        }
        i = i + 1;
    }
    proof {
        assert(v@.take(v@.len() as int) =~= v@);
    }
    out
}

impl crate::TitleElement {
    pub fn from_fb2(value: &TitleElement, ctx: &Context<'_>) -> (r: Option<crate::TitleElement>)
        ensures
            r.deep_view() == spec_title_element(*value, ctx@),
    {
        match value {
            TitleElement::Paragraph(p) => match crate::Paragraph::from_fb2(p, ctx) {
                Some(pv) => Some(crate::TitleElement::Paragraph(pv)),
                None => None,
            },
            TitleElement::EmptyLine => Some(crate::TitleElement::EmptyLine),
        }
    }
}

impl crate::Title {
    /// A title survives only when one of its elements does.
    pub fn from_fb2(value: &Title, ctx: &Context<'_>) -> (r: Option<crate::Title>)
        ensures
            r.deep_view() == spec_title(*value, ctx@),
    {
        let mut content: Vec<crate::TitleElement> = Vec::new();
        let mut i: usize = 0;
        while i < value.elements.len()
            invariant
                i <= value.elements@.len(),
                content.deep_view() == spec_title_elements(value.elements@.take(i as int), ctx@),
            decreases value.elements@.len() - i,
        {
            let ghost pout = content@;
            match crate::TitleElement::from_fb2(&value.elements[i], ctx) {
                Some(e) => {
                    content.push(e);
                },
                None => {},
            }
            proof {
                assert(value.elements@.take(i as int + 1).drop_last() =~= value.elements@.take(
                    i as int,
                ));
                assert(value.elements@.take(i as int + 1).last() == value.elements@[i as int]);
                if content@.len() > pout.len() {
                    assert(content@ == pout.push(content@.last()));
                    assert(crate::dseq(pout.push(content@.last())) == crate::dseq(pout).push(
                        content@.last().deep_view(),
                    ));
                }
                assert(content.deep_view() == spec_title_elements(
                    value.elements@.take(i as int + 1),
                    ctx@,
                ));
            }
            i = i + 1;
        }
        proof {
            assert(value.elements@.take(value.elements@.len() as int) =~= value.elements@);
        }
        if content.len() == 0 {
            None
        } else {
            let t = crate::Title { content };
            proof {
                assert(t.deep_view() =~= spec_title(*value, ctx@)->Some_0);
            }
            Some(t)
        }
    }
}

fn title_opt_from_fb2(value: &Option<Title>, ctx: &Context<'_>) -> (r: Option<crate::Title>)
    ensures
        r.deep_view() == spec_title_opt(*value, ctx@),
{
    match value {
        Some(t) => crate::Title::from_fb2(t, ctx),
        None => None,
    }
}

impl crate::TableCell {
    /// A cell is converted unconditionally: an empty cell is kept so the
    /// columns of its row stay aligned.
    pub fn from_fb2(value: &TableCell, ctx: &Context<'_>) -> (r: crate::TableCell)
        ensures
            r.deep_view() == spec_cell(*value, ctx@),
    {
        let cell = crate::TableCell {
            anchor: clone_opt_string(&value.id),
            content: spans_from_elements(&value.elements, ctx),
        };
        proof {
            assert(cell.deep_view() =~= spec_cell(*value, ctx@));
        }
        cell
    }
}

fn is_head_cell(e: &TableCellElement) -> (r: bool)
    ensures
        r == is_head(*e),
{
    match e {
        TableCellElement::Head(_) => true,
        TableCellElement::Data(_) => false,
    }
}

impl crate::Table {
    /// A table survives only when at least one row has cells; its two
    /// header booleans are inferred from the head tags of the leading
    /// cells before the tags are dropped.
    pub fn from_fb2(value: &Table, ctx: &Context<'_>) -> (r: Option<crate::Table>)
        ensures
            r.deep_view() == spec_table(*value, ctx@),
    {
        let first_head = value.rows.len() > 0 && value.rows[0].cells.len() > 0 && is_head_cell(
            &value.rows[0].cells[0],
        );
        let second_column_head = value.rows.len() > 1 && value.rows[1].cells.len() > 0
            && is_head_cell(&value.rows[1].cells[0]);
        let second_row_head = value.rows.len() > 0 && value.rows[0].cells.len() > 1 && is_head_cell(
            &value.rows[0].cells[1],
        );
        proof {
            assert(first_head == spec_first_head(value.rows@));
            assert(second_column_head == spec_second_column_head(value.rows@));
            assert(second_row_head == spec_second_row_head(value.rows@));
        }

        let mut rows: Vec<crate::TableRow> = Vec::new();
        let mut i: usize = 0;
        while i < value.rows.len()
            invariant
                i <= value.rows@.len(),
                rows.deep_view() == spec_rows(value.rows@.take(i as int), ctx@),
            decreases value.rows@.len() - i,
        {
            let row = &value.rows[i];
            let mut cells: Vec<crate::TableCell> = Vec::new();
            let mut j: usize = 0;
            while j < row.cells.len()
                invariant
                    j <= row.cells@.len(),
                    cells.deep_view() == spec_cells(row.cells@.take(j as int), ctx@),
                decreases row.cells@.len() - j,
            {
                let ghost pcells = cells@;
                let c = match &row.cells[j] {
                    TableCellElement::Head(c) => crate::TableCell::from_fb2(c, ctx),
                    TableCellElement::Data(c) => crate::TableCell::from_fb2(c, ctx),
                };
                cells.push(c);
                proof {
                    assert(row.cells@.take(j as int + 1).drop_last() =~= row.cells@.take(j as int));
                    assert(row.cells@.take(j as int + 1).last() == row.cells@[j as int]);
                    assert(cells@ == pcells.push(cells@.last()));
                    assert(crate::dseq(pcells.push(cells@.last())) == crate::dseq(pcells).push(
                        cells@.last().deep_view(),
                    ));
                    assert(cells.deep_view() == spec_cells(row.cells@.take(j as int + 1), ctx@));
                }
                j = j + 1;
            }
            proof {
                assert(row.cells@.take(row.cells@.len() as int) =~= row.cells@);
            }
            let ghost prows = rows@;
            if cells.len() > 0 {
                let tr = crate::TableRow { cells };
                proof {
                    assert(tr.deep_view() =~= spec_row(value.rows@[i as int], ctx@)->Some_0);
                }
                rows.push(tr);
            }
            proof {
                assert(value.rows@.take(i as int + 1).drop_last() =~= value.rows@.take(i as int));
                assert(value.rows@.take(i as int + 1).last() == value.rows@[i as int]);
                if rows@.len() > prows.len() {
                    assert(rows@ == prows.push(rows@.last()));
                    assert(crate::dseq(prows.push(rows@.last())) == crate::dseq(prows).push(
                        rows@.last().deep_view(),
                    ));
                }
                assert(rows.deep_view() == spec_rows(value.rows@.take(i as int + 1), ctx@));
            }
            i = i + 1;
        }
        proof {
            assert(value.rows@.take(value.rows@.len() as int) =~= value.rows@);
        }

        if rows.len() == 0 {
            None
        } else {
            let t = crate::Table {
                anchor: clone_opt_string(&value.id),
                header_column: first_head && second_column_head,
                header_row: first_head && second_row_head,
                rows,
            };
            proof {
                assert(t.deep_view() =~= spec_table(*value, ctx@)->Some_0);
            }
            Some(t)
        }
    }
}

impl crate::Stanza {
    /// A stanza survives only when at least one of its lines does.
    pub fn from_fb2(value: &Stanza, ctx: &Context<'_>) -> (r: Option<crate::Stanza>)
        ensures
            r.deep_view() == spec_stanza(*value, ctx@),
    {
        let content = paragraphs_from_fb2(&value.lines, ctx);
        if content.len() == 0 {
            None
        } else {
            let title = title_opt_from_fb2(&value.title, ctx);
            let subtitle = match &value.subtitle {
                Some(p) => crate::Paragraph::from_fb2(p, ctx),
                None => None,
            };
            let s = crate::Stanza { title, subtitle, content };
            proof {
                assert(s.deep_view() =~= spec_stanza(*value, ctx@)->Some_0);
            }
            Some(s)
        }
    }
}

impl crate::PoemElement {
    pub fn from_fb2(value: &PoemStanza, ctx: &Context<'_>) -> (r: Option<crate::PoemElement>)
        ensures
            r.deep_view() == spec_poem_element(*value, ctx@),
    {
        match value {
            PoemStanza::Subtitle(p) => match crate::Paragraph::from_fb2(p, ctx) {
                Some(pv) => Some(crate::PoemElement::Subtitle(pv)),
                None => None,
            },
            PoemStanza::Stanza(s) => match crate::Stanza::from_fb2(s, ctx) {
                Some(sv) => Some(crate::PoemElement::Stanza(sv)),
                None => None,
            },
        }
    }
}

impl crate::Poem {
    /// A poem survives only when at least one of its stanzas does.
    pub fn from_fb2(value: &Poem, ctx: &Context<'_>) -> (r: Option<crate::Poem>)
        ensures
            crate::opt_view_poem(r) == spec_poem(*value, ctx@),
        decreases *value,
    {
        let mut content: Vec<crate::PoemElement> = Vec::new();
        let mut i: usize = 0;
        while i < value.stanzas.len()
            invariant
                i <= value.stanzas@.len(),
                content.deep_view() == spec_poem_elements(value.stanzas@.take(i as int), ctx@),
            decreases value.stanzas@.len() - i,
        {
            let ghost pout = content@;
            match crate::PoemElement::from_fb2(&value.stanzas[i], ctx) {
                Some(e) => {
                    content.push(e);
                },
                None => {},
            }
            proof {
                assert(value.stanzas@.take(i as int + 1).drop_last() =~= value.stanzas@.take(
                    i as int,
                ));
                assert(value.stanzas@.take(i as int + 1).last() == value.stanzas@[i as int]);
                if content@.len() > pout.len() {
                    assert(content@ == pout.push(content@.last()));
                    assert(crate::dseq(pout.push(content@.last())) == crate::dseq(pout).push(
                        content@.last().deep_view(),
                    ));
                }
                assert(content.deep_view() == spec_poem_elements(
                    value.stanzas@.take(i as int + 1),
                    ctx@,
                ));
            }
            i = i + 1;
        }
        proof {
            assert(value.stanzas@.take(value.stanzas@.len() as int) =~= value.stanzas@);
        }
        if content.len() == 0 {
            None
        } else {
            let p = crate::Poem {
                anchor: clone_opt_string(&value.id),
                title: title_opt_from_fb2(&value.title, ctx),
                epigraphs: epigraphs_from_fb2(&value.epigraphs, ctx),
                authors: paragraphs_from_fb2(&value.text_authors, ctx),
                content,
            };
            proof {
                assert(crate::view_poem(p) =~= spec_poem(*value, ctx@)->Some_0);
            }
            Some(p)
        }
    }
}

fn epigraphs_from_fb2(v: &Vec<Epigraph>, ctx: &Context<'_>) -> (r: Vec<crate::Epigraph>)
    ensures
        crate::view_epigraphs(r@) == spec_epigraphs(v@, ctx@),
    decreases v@,
{
    let mut out: Vec<crate::Epigraph> = Vec::new();
    let mut i: usize = 0;
    while i < v.len()
        invariant
            i <= v@.len(),
            crate::view_epigraphs(out@) == spec_epigraphs(v@.take(i as int), ctx@),
        decreases v@.len() - i,
    {
        let ghost pout = out@;
        match crate::Epigraph::from_fb2(&v[i], ctx) {
            Some(e) => {
                out.push(e);
            },
            None => {},
        }
        proof {
            assert(v@.take(i as int + 1).drop_last() =~= v@.take(i as int));
            assert(v@.take(i as int + 1).last() == v@[i as int]);
            if out@.len() > pout.len() {
                assert(out@.drop_last() =~= pout);
                assert(crate::view_epigraphs(out@) == crate::view_epigraphs(pout).push(
                    crate::view_epigraph(out@.last()),
                ));
            }
            assert(crate::view_epigraphs(out@) == spec_epigraphs(v@.take(i as int + 1), ctx@));
        }
        i = i + 1;
    }
    proof {
        assert(v@.take(v@.len() as int) =~= v@);
    }
    out
}

impl crate::Epigraph {
    /// An epigraph survives only when at least one of its elements does.
    pub fn from_fb2(value: &Epigraph, ctx: &Context<'_>) -> (r: Option<crate::Epigraph>)
        ensures
            crate::opt_view_epigraph(r) == spec_epigraph(*value, ctx@),
        decreases *value,
    {
        let mut content: Vec<crate::EpigraphElement> = Vec::new();
        let mut i: usize = 0;
        while i < value.elements.len()
            invariant
                i <= value.elements@.len(),
                crate::view_epigraph_elements(content@) == spec_epigraph_elements(
                    value.elements@.take(i as int),
                    ctx@,
                ),
            decreases value.elements@.len() - i,
        {
            let ghost pout = content@;
            match crate::EpigraphElement::from_fb2(&value.elements[i], ctx) {
                Some(e) => {
                    content.push(e);
                },
                None => {},
            }
            proof {
                assert(value.elements@.take(i as int + 1).drop_last() =~= value.elements@.take(
                    i as int,
                ));
                assert(value.elements@.take(i as int + 1).last() == value.elements@[i as int]);
                if content@.len() > pout.len() {
                    assert(content@.drop_last() =~= pout);
                    assert(crate::view_epigraph_elements(content@)
                        == crate::view_epigraph_elements(pout).push(
                        crate::view_epigraph_element(content@.last()),
                    ));
                }
                assert(crate::view_epigraph_elements(content@) == spec_epigraph_elements(
                    value.elements@.take(i as int + 1),
                    ctx@,
                ));
            }
            i = i + 1;
        }
        proof {
            assert(value.elements@.take(value.elements@.len() as int) =~= value.elements@);
        }
        if content.len() == 0 {
            None
        } else {
            let e = crate::Epigraph {
                anchor: clone_opt_string(&value.id),
                authors: paragraphs_from_fb2(&value.text_authors, ctx),
                content,
            };
            proof {
                assert(crate::view_epigraph(e) =~= spec_epigraph(*value, ctx@)->Some_0);
            }
            Some(e)
        }
    }
}

impl crate::EpigraphElement {
    pub fn from_fb2(value: &EpigraphElement, ctx: &Context<'_>) -> (r: Option<
        crate::EpigraphElement,
    >)
        ensures
            ({
                match r {
                    Some(e) => Some(crate::view_epigraph_element(e)) == spec_epigraph_element(
                        *value,
                        ctx@,
                    ),
                    None => spec_epigraph_element(*value, ctx@) is None,
                }
            }),
        decreases *value,
    {
        match value {
            EpigraphElement::Paragraph(p) => match crate::Paragraph::from_fb2(p, ctx) {
                Some(pv) => Some(crate::EpigraphElement::Paragraph(pv)),
                None => None,
            },
            EpigraphElement::Poem(p) => match crate::Poem::from_fb2(p, ctx) {
                Some(pv) => Some(crate::EpigraphElement::Poem(pv)),
                None => None,
            },
            EpigraphElement::Cite(c) => match crate::Cite::from_fb2(c, ctx) {
                Some(cv) => Some(crate::EpigraphElement::Cite(cv)),
                None => None,
            },
            EpigraphElement::EmptyLine => Some(crate::EpigraphElement::EmptyLine),
        }
    }
}

impl crate::Cite {
    /// A citation survives only when at least one of its elements does.
    pub fn from_fb2(value: &Cite, ctx: &Context<'_>) -> (r: Option<crate::Cite>)
        ensures
            crate::opt_view_cite(r) == spec_cite(*value, ctx@),
        decreases *value,
    {
        let mut content: Vec<crate::CiteElement> = Vec::new();
        let mut i: usize = 0;
        while i < value.elements.len()
            invariant
                i <= value.elements@.len(),
                crate::view_cite_elements(content@) == spec_cite_elements(
                    value.elements@.take(i as int),
                    ctx@,
                ),
            decreases value.elements@.len() - i,
        {
            let ghost pout = content@;
            match crate::CiteElement::from_fb2(&value.elements[i], ctx) {
                Some(e) => {
                    content.push(e);
                },
                None => {},
            }
            proof {
                assert(value.elements@.take(i as int + 1).drop_last() =~= value.elements@.take(
                    i as int,
                ));
                assert(value.elements@.take(i as int + 1).last() == value.elements@[i as int]);
                if content@.len() > pout.len() {
                    assert(content@.drop_last() =~= pout);
                    assert(crate::view_cite_elements(content@) == crate::view_cite_elements(
                        pout,
                    ).push(crate::view_cite_element(content@.last())));
                }
                assert(crate::view_cite_elements(content@) == spec_cite_elements(
                    value.elements@.take(i as int + 1),
                    ctx@,
                ));
            }
            i = i + 1;
        }
        proof {
            assert(value.elements@.take(value.elements@.len() as int) =~= value.elements@);
        }
        if content.len() == 0 {
            None
        } else {
            let c = crate::Cite {
                anchor: clone_opt_string(&value.id),
                authors: paragraphs_from_fb2(&value.text_authors, ctx),
                content,
            };
            proof {
                assert(crate::view_cite(c) =~= spec_cite(*value, ctx@)->Some_0);
            }
            Some(c)
        }
    }
}

impl crate::CiteElement {
    pub fn from_fb2(value: &CiteElement, ctx: &Context<'_>) -> (r: Option<crate::CiteElement>)
        ensures
            ({
                match r {
                    Some(e) => Some(crate::view_cite_element(e)) == spec_cite_element(
                        *value,
                        ctx@,
                    ),
                    None => spec_cite_element(*value, ctx@) is None,
                }
            }),
        decreases *value,
    {
        match value {
            CiteElement::Paragraph(p) => match crate::Paragraph::from_fb2(p, ctx) {
                Some(pv) => Some(crate::CiteElement::Paragraph(pv)),
                None => None,
            },
            CiteElement::Poem(p) => match crate::Poem::from_fb2(p, ctx) {
                Some(pv) => Some(crate::CiteElement::Poem(pv)),
                None => None,
            },
            CiteElement::Subtitle(p) => match crate::Paragraph::from_fb2(p, ctx) {
                Some(pv) => Some(crate::CiteElement::Subtitle(pv)),
                None => None,
            },
            CiteElement::Table(t) => match crate::Table::from_fb2(t, ctx) {
                Some(tv) => Some(crate::CiteElement::Table(tv)),
                None => None,
            },
            CiteElement::EmptyLine => Some(crate::CiteElement::EmptyLine),
        }
    }
}

impl crate::AnnotationElement {
    pub fn from_fb2(value: &AnnotationElement, ctx: &Context<'_>) -> (r: Option<
        crate::AnnotationElement,
    >)
        ensures
            r.deep_view() == spec_annotation_element(*value, ctx@),
    {
        match value {
            AnnotationElement::Paragraph(p) => match crate::Paragraph::from_fb2(p, ctx) {
                Some(pv) => Some(crate::AnnotationElement::Paragraph(pv)),
                None => None,
            },
            AnnotationElement::Poem(p) => match crate::Poem::from_fb2(p, ctx) {
                Some(pv) => Some(crate::AnnotationElement::Poem(pv)),
                None => None,
            },
            AnnotationElement::Cite(c) => match crate::Cite::from_fb2(c, ctx) {
                Some(cv) => Some(crate::AnnotationElement::Cite(cv)),
                None => None,
            },
            AnnotationElement::Subtitle(p) => match crate::Paragraph::from_fb2(p, ctx) {
                Some(pv) => Some(crate::AnnotationElement::Subtitle(pv)),
                None => None,
            },
            AnnotationElement::Table(t) => match crate::Table::from_fb2(t, ctx) {
                Some(tv) => Some(crate::AnnotationElement::Table(tv)),
                None => None,
            },
            AnnotationElement::EmptyLine => Some(crate::AnnotationElement::EmptyLine),
        }
    }
}

impl crate::Annotation {
    /// An annotation survives only when at least one of its elements
    /// does.
    pub fn from_fb2(value: &Annotation, ctx: &Context<'_>) -> (r: Option<crate::Annotation>)
        ensures
            r.deep_view() == spec_annotation(*value, ctx@),
    {
        let mut content: Vec<crate::AnnotationElement> = Vec::new();
        let mut i: usize = 0;
        while i < value.elements.len()
            invariant
                i <= value.elements@.len(),
                content.deep_view() == spec_annotation_elements(
                    value.elements@.take(i as int),
                    ctx@,
                ),
            decreases value.elements@.len() - i,
        {
            let ghost pout = content@;
            match crate::AnnotationElement::from_fb2(&value.elements[i], ctx) {
                Some(e) => {
                    content.push(e);
                },
                None => {},
            }
            proof {
                assert(value.elements@.take(i as int + 1).drop_last() =~= value.elements@.take(
                    i as int,
                ));
                assert(value.elements@.take(i as int + 1).last() == value.elements@[i as int]);
                if content@.len() > pout.len() {
                    assert(content@ == pout.push(content@.last()));
                    assert(crate::dseq(pout.push(content@.last())) == crate::dseq(pout).push(
                        content@.last().deep_view(),
                    ));
                }
                assert(content.deep_view() == spec_annotation_elements(
                    value.elements@.take(i as int + 1),
                    ctx@,
                ));
            }
            i = i + 1;
        }
        proof {
            assert(value.elements@.take(value.elements@.len() as int) =~= value.elements@);
        }
        if content.len() == 0 {
            None
        } else {
            let a = crate::Annotation { anchor: clone_opt_string(&value.id), content };
            proof {
                assert(a.deep_view() =~= spec_annotation(*value, ctx@)->Some_0);
            }
            Some(a)
        }
    }
}

fn annotation_opt_from_fb2(value: &Option<Annotation>, ctx: &Context<'_>) -> (r: Option<
    crate::Annotation,
>)
    ensures
        r.deep_view() == spec_annotation_opt(*value, ctx@),
{
    match value {
        Some(a) => crate::Annotation::from_fb2(a, ctx),
        None => None,
    }
}

impl crate::Content {
    /// Convert one section-level node; a blank line always passes
    /// through.
    pub fn from_fb2(value: &SectionPart, ctx: &Context<'_>) -> (r: Option<crate::Content>)
        ensures
            r.deep_view() == spec_content(*value, ctx@),
    {
        match value {
            SectionPart::Paragraph(p) => match crate::Paragraph::from_fb2(p, ctx) {
                Some(pv) => Some(crate::Content::Paragraph(pv)),
                None => None,
            },
            SectionPart::Poem(p) => match crate::Poem::from_fb2(p, ctx) {
                Some(pv) => Some(crate::Content::Poem(pv)),
                None => None,
            },
            SectionPart::Subtitle(p) => match crate::Paragraph::from_fb2(p, ctx) {
                Some(pv) => Some(crate::Content::Subtitle(pv)),
                None => None,
            },
            SectionPart::Cite(c) => match crate::Cite::from_fb2(c, ctx) {
                Some(cv) => Some(crate::Content::Cite(cv)),
                None => None,
            },
            SectionPart::Table(t) => match crate::Table::from_fb2(t, ctx) {
                Some(tv) => Some(crate::Content::Table(tv)),
                None => None,
            },
            SectionPart::Image(i) => match crate::Image::from_fb2(i, ctx.binaries) {
                Some(iv) => Some(crate::Content::Image(iv)),
                None => None,
            },
            SectionPart::EmptyLine => Some(crate::Content::EmptyLine),
        }
    }
}

fn contents_from_fb2(v: &Vec<SectionPart>, ctx: &Context<'_>) -> (r: Vec<crate::Content>)
    ensures
        r.deep_view() == spec_contents(v@, ctx@),
{
    let mut out: Vec<crate::Content> = Vec::new();
    let mut i: usize = 0;
    while i < v.len()
        invariant
            i <= v@.len(),
            out.deep_view() == spec_contents(v@.take(i as int), ctx@),
        decreases v@.len() - i,
    {
        let ghost pout = out@;
        match crate::Content::from_fb2(&v[i], ctx) {
            Some(c) => {
                out.push(c);
            },
            None => {},
        }
        proof {
            assert(v@.take(i as int + 1).drop_last() =~= v@.take(i as int));
            assert(v@.take(i as int + 1).last() == v@[i as int]);
            if out@.len() > pout.len() {
                assert(out@ == pout.push(out@.last()));
                assert(crate::dseq(pout.push(out@.last())) == crate::dseq(pout).push(
                    out@.last().deep_view(),
                ));
            }
            assert(out.deep_view() == spec_contents(v@.take(i as int + 1), ctx@));
        }
        i = i + 1;
    }
    proof {
        assert(v@.take(v@.len() as int) =~= v@);
    }
    out
}

impl crate::Chapter {
    /// A section becomes a chapter unless both its converted content and
    /// its recursively converted sub-sections come up empty.
    pub fn from_fb2(section: &Section, ctx: &Context<'_>) -> (r: Option<crate::Chapter>)
        ensures
            crate::opt_view_chapter(r) == spec_chapter(*section, ctx@),
        decreases *section,
    {
        let sc = match &section.content {
            None => {
                return None;
            },
            Some(sc) => sc,
        };
        let content = contents_from_fb2(&sc.content, ctx);
        let sub_chapters = chapters_from_fb2(&sc.sections, ctx);
        if content.len() == 0 && sub_chapters.len() == 0 {
            return None;
        }
        let c = crate::Chapter {
            anchor: clone_opt_string(&section.id),
            title: title_opt_from_fb2(&sc.title, ctx),
            annotation: annotation_opt_from_fb2(&sc.annotation, ctx),
            cover: match &sc.image {
                Some(i) => crate::Image::from_fb2(i, ctx.binaries),
                None => None,
            },
            epigraphs: epigraphs_from_fb2(&sc.epigraphs, ctx),
            content,
            sub_chapters,
        };
        proof {
            assert(crate::view_chapter(c) =~= spec_chapter(*section, ctx@)->Some_0);
        }
        Some(c)
    }
}

fn chapters_from_fb2(v: &Vec<Section>, ctx: &Context<'_>) -> (r: Vec<crate::Chapter>)
    ensures
        crate::view_chapters(r@) == spec_chapters(v@, ctx@),
    decreases v@,
{
    let mut out: Vec<crate::Chapter> = Vec::new();
    let mut i: usize = 0;
    while i < v.len()
        invariant
            i <= v@.len(),
            crate::view_chapters(out@) == spec_chapters(v@.take(i as int), ctx@),
        decreases v@.len() - i,
    {
        let ghost pout = out@;
        match crate::Chapter::from_fb2(&v[i], ctx) {
            Some(c) => {
                out.push(c);
            },
            None => {},
        }
        proof {
            assert(v@.take(i as int + 1).drop_last() =~= v@.take(i as int));
            assert(v@.take(i as int + 1).last() == v@[i as int]);
            if out@.len() > pout.len() {
                assert(out@.drop_last() =~= pout);
                assert(crate::view_chapters(out@) == crate::view_chapters(pout).push(
                    crate::view_chapter(out@.last()),
                ));
            }
            assert(crate::view_chapters(out@) == spec_chapters(v@.take(i as int + 1), ctx@));
        }
        i = i + 1;
    }
    proof {
        assert(v@.take(v@.len() as int) =~= v@);
    }
    out
}

// ---------------------------------------------------------------------------
// Footnotes, authors, the book: conversion
// ---------------------------------------------------------------------------

impl crate::Footnote {
    /// A section becomes a keyed footnote entry when it has a non-empty
    /// key, a section body, and surviving block content.
    pub fn from_fb2(value: &Section, ctx: &Context<'_>) -> (r: Option<(String, crate::Footnote)>)
        ensures
            r.deep_view() == spec_footnote(*value, ctx@),
    {
        let id = match &value.id {
            Some(id) => {
                if id.as_str().is_empty() {
                    return None;
                }
                id.clone()
            },
            None => {
                return None;
            },
        };
        let sc = match &value.content {
            Some(sc) => sc,
            None => {
                return None;
            },
        };
        let content = contents_from_fb2(&sc.content, ctx);
        if content.len() == 0 {
            return None;
        }
        let title = title_opt_from_fb2(&sc.title, ctx);
        let f = crate::Footnote { title, content };
        proof {
            assert(f.deep_view() =~= spec_footnote(*value, ctx@)->Some_0.1);
            assert(id@ == spec_footnote(*value, ctx@)->Some_0.0);
        }
        Some((id, f))
    }
}

impl crate::Footnotes {
    /// A footnote body becomes a collection unless no entry survives.
    pub fn from_fb2(body: &Body, ctx: &Context<'_>) -> (r: Option<crate::Footnotes>)
        ensures
            r.deep_view() == spec_footnotes(*body, ctx@),
    {
        let mut content: Vec<(String, crate::Footnote)> = Vec::new();
        let mut i: usize = 0;
        while i < body.sections.len()
            invariant
                i <= body.sections@.len(),
                content.deep_view() == spec_footnote_pairs(body.sections@.take(i as int), ctx@),
            decreases body.sections@.len() - i,
        {
            let ghost pout = content@;
            match crate::Footnote::from_fb2(&body.sections[i], ctx) {
                Some(p) => {
                    content.push(p);
                },
                None => {},
            }
            proof {
                assert(body.sections@.take(i as int + 1).drop_last() =~= body.sections@.take(
                    i as int,
                ));
                assert(body.sections@.take(i as int + 1).last() == body.sections@[i as int]);
                if content@.len() > pout.len() {
                    assert(content@ == pout.push(content@.last()));
                    assert(crate::dseq(pout.push(content@.last())) == crate::dseq(pout).push(
                        content@.last().deep_view(),
                    ));
                }
                assert(content.deep_view() == spec_footnote_pairs(
                    body.sections@.take(i as int + 1),
                    ctx@,
                ));
            }
            i = i + 1;
        }
        proof {
            assert(body.sections@.take(body.sections@.len() as int) =~= body.sections@);
        }
        if content.len() == 0 {
            None
        } else {
            let title = title_opt_from_fb2(&body.title, ctx);
            let f = crate::Footnotes { title, content };
            proof {
                assert(f.deep_view() =~= spec_footnotes(*body, ctx@)->Some_0);
            }
            Some(f)
        }
    }
}

impl crate::Author {
    /// Assemble an author's display name from its given, middle and
    /// family parts in that fixed order; fall back to a non-empty
    /// nickname; with neither, the author is dropped.
    pub fn from_fb2(value: &Author) -> (r: Option<crate::Author>)
        ensures
            r.deep_view() == spec_author(*value),
    {
        let (given, family, middle, nickname) = match value {
            Author::Verbose(a) => (
                non_empty(a.first_name.clone()),
                non_empty(a.last_name.clone()),
                match &a.middle_name {
                    Some(m) => non_empty(m.clone()),
                    None => None,
                },
                clone_opt_string(&a.nickname),
            ),
            Author::Anonymous(a) => (None, None, None, clone_opt_string(&a.nickname)),
        };
        let ghost gv = given.deep_view();
        let ghost mv = middle.deep_view();
        let ghost fv = family.deep_view();

        let mut full_name = String::new();
        if let Some(g) = &given {
            full_name.append(g.as_str());
        }
        proof {
            reveal_strlit(" ");
            assert(" "@ =~= seq![' ']);
            assert(full_name@ == join_part(Seq::empty(), gv));
        }
        if let Some(m) = &middle {
            if !full_name.as_str().is_empty() {
                full_name.append(" ");
            }
            full_name.append(m.as_str());
        }
        proof {
            assert(full_name@ == join_part(join_part(Seq::empty(), gv), mv));
        }
        if let Some(f) = &family {
            if !full_name.as_str().is_empty() {
                full_name.append(" ");
            }
            full_name.append(f.as_str());
        }
        proof {
            assert(full_name@ == spec_full_name(gv, mv, fv));
        }

        if !full_name.as_str().is_empty() {
            let a = crate::Author {
                id: 0,
                full_name,
                given_name: given,
                family_name: family,
                middle_name: middle,
            };
            proof {
                assert(a.deep_view() =~= spec_author(*value)->Some_0);
            }
            Some(a)
        } else {
            match nickname {
                Some(n) => {
                    if n.as_str().is_empty() {
                        None
                    } else {
                        let a = crate::Author {
                            id: 0,
                            full_name: n,
                            given_name: given,
                            family_name: family,
                            middle_name: middle,
                        };
                        proof {
                            assert(a.deep_view() =~= spec_author(*value)->Some_0);
                        }
                        Some(a)
                    }
                },
                None => None,
            }
        }
    }
}

fn cover_from_fb2(cover_page: &Option<CoverPage>, binary_ids: &crate::BinaryIndex) -> (r: Option<
    crate::InlineImage,
>)
    ensures
        r.deep_view() == spec_cover(*cover_page, binary_ids@),
{
    match cover_page {
        None => None,
        Some(cp) => {
            proof {
                assert(cp.images@.skip(0) =~= cp.images@);
            }
            let mut i: usize = 0;
            while i < cp.images.len()
                invariant
                    i <= cp.images@.len(),
                    *cover_page == Some(*cp),
                    spec_first_image(cp.images@.skip(i as int), binary_ids@) == spec_first_image(
                        cp.images@,
                        binary_ids@,
                    ),
                decreases cp.images@.len() - i,
            {
                proof {
                    assert(cp.images@.skip(i as int)[0] == cp.images@[i as int]);
                    assert(cp.images@.skip(i as int).drop_first() =~= cp.images@.skip(i as int + 1));
                }
                match crate::InlineImage::from_fb2(&cp.images[i], binary_ids) {
                    Some(img) => {
                        proof {
                            assert(spec_first_image(cp.images@.skip(i as int), binary_ids@)
                                == Some(img.deep_view()));
                            assert(spec_first_image(cp.images@, binary_ids@) == Some(
                                img.deep_view(),
                            ));
                            assert(*cover_page == Some(*cp));
                            assert(spec_cover(*cover_page, binary_ids@) == Some(img.deep_view()));
                        }
                        return Some(img);
                    },
                    None => {},
                }
                i = i + 1;
            }
            proof {
                assert(cp.images@.skip(cp.images@.len() as int) =~= Seq::<InlineImage>::empty());
            }
            None
        },
    }
}

fn find_body<'x>(bodies: &'x Vec<Body>, name: Option<&str>) -> (r: Option<&'x Body>)
    ensures
        ({
            let nv = match name {
                Some(s) => Some(s@),
                None => None,
            };
            match r {
                Some(b) => spec_find_body(bodies@, nv) == Some(*b),
                None => spec_find_body(bodies@, nv) is None,
            }
        }),
{
    let ghost nv: Option<Seq<char>> = match name {
        Some(s) => Some(s@),
        None => None,
    };
    proof {
        assert(bodies@.skip(0) =~= bodies@);
    }
    let mut i: usize = 0;
    while i < bodies.len()
        invariant
            i <= bodies@.len(),
            nv == match name {
                Some(s) => Some(s@),
                None => None,
            },
            spec_find_body(bodies@.skip(i as int), nv) == spec_find_body(bodies@, nv),
        decreases bodies@.len() - i,
    {
        proof {
            assert(bodies@.skip(i as int)[0] == bodies@[i as int]);
            assert(bodies@.skip(i as int).drop_first() =~= bodies@.skip(i as int + 1));
        }
        let matches_name = match (&bodies[i].name, name) {
            (Some(bn), Some(n)) => str_eq(bn.as_str(), n),
            (None, None) => true,
            _ => false,
        };
        if matches_name {
            return Some(&bodies[i]);
        }
        i = i + 1;
    }
    proof {
        assert(bodies@.skip(bodies@.len() as int) =~= Seq::<Body>::empty());
    }
    None
}

impl crate::Book {
    /// Convert a whole source document.  This never fails: every
    /// recoverable absence becomes an absent field, never an error.  The
    /// opaque language value is pinned by the two language clauses: a
    /// main-body language wins, else the title-info tag is parsed.
    pub fn from_fb2(
        book: &FictionBook,
        book_id: u128,
        binary_ids: &crate::BinaryIndex,
    ) -> (r: crate::Book)
        ensures
            r.deep_view() == spec_book(*book, book_id, binary_ids@),
            ({
                let main = spec_find_body(book.bodies@, None);
                match main {
                    Some(b) => match b.lang {
                        Some(l) => r.language == Some(l),
                        None => (r.language is Some) == spec_title_lang_ok(*book),
                    },
                    None => (r.language is Some) == spec_title_lang_ok(*book),
                }
            }),
    {
        let ti = &book.description.title_info;
        let short_title = ti.book_title.clone();
        let date = match &ti.date {
            Some(d) => crate::Date {
                iso_date: d.iso_date,
                display_date: clone_opt_string(&d.display_date),
            },
            None => crate::Date { iso_date: None, display_date: None },
        };

        let mut authors: Vec<crate::Author> = Vec::new();
        let mut i: usize = 0;
        while i < ti.authors.len()
            invariant
                i <= ti.authors@.len(),
                authors.deep_view() == spec_authors(ti.authors@.take(i as int)),
            decreases ti.authors@.len() - i,
        {
            let ghost pout = authors@;
            match crate::Author::from_fb2(&ti.authors[i]) {
                Some(a) => {
                    authors.push(a);
                },
                None => {},
            }
            proof {
                assert(ti.authors@.take(i as int + 1).drop_last() =~= ti.authors@.take(i as int));
                assert(ti.authors@.take(i as int + 1).last() == ti.authors@[i as int]);
                if authors@.len() > pout.len() {
                    assert(authors@ == pout.push(authors@.last()));
                    assert(crate::dseq(pout.push(authors@.last())) == crate::dseq(pout).push(
                        authors@.last().deep_view(),
                    ));
                }
                assert(authors.deep_view() == spec_authors(ti.authors@.take(i as int + 1)));
            }
            i = i + 1;
        }
        proof {
            assert(ti.authors@.take(ti.authors@.len() as int) =~= ti.authors@);
        }

        let language0 = if ti.lang.as_str().is_empty() {
            None
        } else {
            crate::parse_language_tag(ti.lang.as_str())
        };
        proof {
            assert((language0 is Some) == spec_title_lang_ok(*book));
        }

        let cover = cover_from_fb2(&ti.cover_page, binary_ids);

        let empty_ctx = Context {
            binaries: binary_ids,
            notes: crate::KeySet::new(),
            comments: crate::KeySet::new(),
        };
        proof {
            assert(empty_ctx@ =~= spec_empty_ctx(binary_ids@));
        }
        let notes = match find_body(&book.bodies, Some("notes")) {
            Some(b) => crate::Footnotes::from_fb2(b, &empty_ctx),
            None => None,
        };
        let comments = match find_body(&book.bodies, Some("comments")) {
            Some(b) => crate::Footnotes::from_fb2(b, &empty_ctx),
            None => None,
        };
        proof {
            assert(notes.deep_view() == spec_named_footnotes(book.bodies@, "notes"@, binary_ids@));
            assert(comments.deep_view() == spec_named_footnotes(
                book.bodies@,
                "comments"@,
                binary_ids@,
            ));
        }

        let note_keys = footnote_keys(&notes);
        let comment_keys = footnote_keys(&comments);
        let ctx = Context { binaries: binary_ids, notes: note_keys, comments: comment_keys };
        proof {
            assert(ctx@ =~= spec_book_ctx(*book, binary_ids@));
        }

        let annotation = match &ti.annotation {
            Some(a) => crate::Annotation::from_fb2(a, &ctx),
            None => None,
        };

        let main = find_body(&book.bodies, None);
        let (chapters, language, title, epigraphs) = match main {
            Some(b) => {
                let chapters = chapters_from_fb2(&b.sections, &ctx);
                let language = match &b.lang {
                    Some(l) => Some(l.clone()),
                    None => language0,
                };
                let title = title_opt_from_fb2(&b.title, &ctx);
                let epigraphs = epigraphs_from_fb2(&b.epigraphs, &ctx);
                (chapters, language, title, epigraphs)
            },
            None => (Vec::new(), language0, None, Vec::new()),
        };

        let b = crate::Book {
            id: book_id,
            language,
            short_title,
            date,
            authors,
            cover,
            annotation,
            title,
            epigraphs,
            notes,
            comments,
            chapters,
        };
        proof {
            assert(crate::view_chapters(Seq::<crate::Chapter>::empty()) =~= Seq::<
                crate::ChapterV,
            >::empty());
            assert(crate::view_epigraphs(Seq::<crate::Epigraph>::empty()) =~= Seq::<
                crate::EpigraphV,
            >::empty());
            assert(b.deep_view() =~= spec_book(*book, book_id, binary_ids@));
        }
        b
    }
}

/// The key set of an optional footnote collection.
fn footnote_keys(f: &Option<crate::Footnotes>) -> (r: crate::KeySet)
    ensures
        r@ == spec_keys(f.deep_view()),
{
    let mut keys = crate::KeySet::new();
    match f {
        None => {
            proof {
                assert(keys@ =~= spec_keys(f.deep_view()));
            }
        },
        Some(n) => {
            let ghost d = n.content.deep_view();
            let mut i: usize = 0;
            while i < n.content.len()
                invariant
                    i <= n.content@.len(),
                    d == n.content.deep_view(),
                    keys@ == crate::assoc_map(d.take(i as int)).dom(),
                decreases n.content@.len() - i,
            {
                keys.insert(n.content[i].0.clone());
                proof {
                    assert(d.take(i as int + 1).drop_last() =~= d.take(i as int));
                    assert(d.take(i as int + 1).last() == d[i as int]);
                    assert(d[i as int].0 == n.content@[i as int].0@);
                    assert(keys@ =~= crate::assoc_map(d.take(i as int + 1)).dom());
                }
                i = i + 1;
            }
            proof {
                assert(d.take(d.len() as int) =~= d);
                assert(keys@ == spec_keys(f.deep_view()));
            }
        },
    }
    keys
}

} // verus!
