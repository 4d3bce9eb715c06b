//! Canonical e-book document model.
//!
//! A source document (the typed node tree that a markup deserializer
//! produces) is normalized into one canonical `Book` tree: metadata,
//! chapters, footnotes, inline spans with composed styling, hyperlink
//! disambiguation and table structure inference.  The conversion lives in
//! the [`fb2`] module; this module holds the canonical data model, its
//! mathematical mirror (the `*V` types used in specifications), and the
//! two small verified indexes that a conversion context is built from.

use vstd::prelude::*;

pub mod fb2;

verus! {

/// Font weight given to text under a "strong" (bold) wrapper.
pub const BOLD_WEIGHT: u16 = 600;

// ---------------------------------------------------------------------------
// Outside crates: language tags and URLs
// ---------------------------------------------------------------------------

#[verifier::external_type_specification]
#[verifier::external_body]
pub struct ExLanguageTag(language_tags::LanguageTag);

/// Whether `language_tags::LanguageTag::parse` accepts this tag text;
/// acceptance depends on the text alone.
pub uninterp spec fn language_tag_ok(s: Seq<char>) -> bool;

/// Relies on `language_tags::LanguageTag::parse` (what `str::parse` calls
/// for this type): it returns `Ok` or `Err` depending on the input string
/// alone.
#[verifier::external_body]
pub(crate) fn parse_language_tag(s: &str) -> (r: Option<language_tags::LanguageTag>)
    ensures
        r is Some <==> language_tag_ok(s@),
{
    language_tags::LanguageTag::parse(s).ok()
}

/// Relies on `language_tags::LanguageTag`'s derived `Clone`, which
/// clones every field and so returns an equal value.
pub assume_specification[ <language_tags::LanguageTag as Clone>::clone ](
    l: &language_tags::LanguageTag,
) -> (r: language_tags::LanguageTag)
    ensures
        r == *l,
;

/// The normalized serialization that `url::Url::parse` gives this text,
/// absent when parsing fails; both depend on the text alone.
pub uninterp spec fn url_norm(s: Seq<char>) -> Option<Seq<char>>;

/// Relies on `url::Url::parse` and `String::from(Url)` (the URL's
/// serialization): parsing and normalizing depend on the input alone.
#[verifier::external_body]
pub(crate) fn url_normalize(s: &str) -> (r: Option<String>)
    ensures
        (r is Some) == (url_norm(s@) is Some),
        r matches Some(u) ==> Some(u@) == url_norm(s@),
{
    match url::Url::parse(s) {
        Ok(u) => Some(String::from(u)),
        Err(_) => None,
    }
}

// ---------------------------------------------------------------------------
// Identifiers and dates
// ---------------------------------------------------------------------------

/// A calendar date, kept as plain year / month / day numbers.
#[derive(Debug, Clone, Copy, PartialEq, Eq, Structural)]
pub struct IsoDate {
    pub year: i32,
    pub month: u8,
    pub day: u8,
}

/// Publication date: an optional structured date plus an optional free-text
/// display form; both default to absent.
#[derive(Debug, PartialEq)]
pub struct Date {
    pub iso_date: Option<IsoDate>,
    pub display_date: Option<String>,
}

/// Mirror of [`Date`].
#[verifier::ext_equal]
pub struct DateV {
    pub iso_date: Option<IsoDate>,
    pub display_date: Option<Seq<char>>,
}

impl DeepView for Date {
    type V = DateV;

    open spec fn deep_view(&self) -> DateV {
        DateV { iso_date: self.iso_date, display_date: self.display_date.deep_view() }
    }
}

impl Default for Date {
    /// A date with neither component supplied.
    fn default() -> (r: Date)
        ensures
            r.deep_view() == (DateV { iso_date: None, display_date: None }),
    {
        Date { iso_date: None, display_date: None }
    }
}

// ---------------------------------------------------------------------------
// Text styling facets
// ---------------------------------------------------------------------------

#[derive(Debug, Clone, Copy, PartialEq, Eq, Structural)]
pub enum FontStyle {
    Italic,
    Code,
}

#[derive(Debug, Clone, Copy, PartialEq, Eq, Structural)]
pub enum TextDecoration {
    LineThrough,
}

#[derive(Debug, Clone, Copy, PartialEq, Eq, Structural)]
pub enum BaselineShift {
    Subscript,
    Superscript,
}

/// The set of font-style flags a text run carries.
#[derive(Debug, Clone, Copy, PartialEq, Eq, Structural)]
pub struct FontStyleSet {
    pub italic: bool,
    pub code: bool,
}

impl FontStyleSet {
    pub fn empty() -> (r: FontStyleSet)
        ensures
            r == (FontStyleSet { italic: false, code: false }),
    {
        FontStyleSet { italic: false, code: false }
    }

    pub open spec fn has(self, s: FontStyle) -> bool {
        match s {
            FontStyle::Italic => self.italic,
            FontStyle::Code => self.code,
        }
    }
}

/// The set of decoration flags a text run carries.
#[derive(Debug, Clone, Copy, PartialEq, Eq, Structural)]
pub struct TextDecorationSet {
    pub line_through: bool,
}

impl TextDecorationSet {
    pub fn empty() -> (r: TextDecorationSet)
        ensures
            r == (TextDecorationSet { line_through: false }),
    {
        TextDecorationSet { line_through: false }
    }

    pub open spec fn has(self, d: TextDecoration) -> bool {
        match d {
            TextDecoration::LineThrough => self.line_through,
        }
    }
}

// ---------------------------------------------------------------------------
// Inline spans
// ---------------------------------------------------------------------------

/// A styled text run.
#[derive(Debug, PartialEq)]
pub struct Text {
    pub font_weight: Option<u16>,
    pub font_style: FontStyleSet,
    pub decorations: TextDecorationSet,
    pub baseline_shift: Option<BaselineShift>,
    pub value: String,
}

/// Mirror of [`Text`].
#[verifier::ext_equal]
pub struct TextV {
    pub font_weight: Option<u16>,
    pub font_style: FontStyleSet,
    pub decorations: TextDecorationSet,
    pub baseline_shift: Option<BaselineShift>,
    pub value: Seq<char>,
}

impl DeepView for Text {
    type V = TextV;

    open spec fn deep_view(&self) -> TextV {
        TextV {
            font_weight: self.font_weight,
            font_style: self.font_style,
            decorations: self.decorations,
            baseline_shift: self.baseline_shift,
            value: self.value@,
        }
    }
}

/// An unstyled text run holding `value`.
pub open spec fn plain_text(value: Seq<char>) -> TextV {
    TextV {
        font_weight: None,
        font_style: FontStyleSet { italic: false, code: false },
        decorations: TextDecorationSet { line_through: false },
        baseline_shift: None,
        value,
    }
}

impl From<String> for Text {
    /// An unstyled text run.
    fn from(value: String) -> (r: Text) {
        Text {
            font_weight: None,
            font_style: FontStyleSet::empty(),
            decorations: TextDecorationSet::empty(),
            baseline_shift: None,
            value,
        }
    }
}

impl vstd::std_specs::convert::FromSpecImpl<String> for Text {
    open spec fn obeys_from_spec() -> bool {
        true
    }

    open spec fn from_spec(value: String) -> Text {
        Text {
            font_weight: None,
            font_style: FontStyleSet { italic: false, code: false },
            decorations: TextDecorationSet { line_through: false },
            baseline_shift: None,
            value,
        }
    }
}

/// A resolved hyperlink target: a local anchor key (without its leading
/// `#` marker) or the normalized text of an absolute URL.
#[derive(Debug, PartialEq)]
pub enum Href {
    Remote(String),
    Local(String),
}

/// Mirror of [`Href`].
#[verifier::ext_equal]
pub enum HrefV {
    Remote(Seq<char>),
    Local(Seq<char>),
}

impl DeepView for Href {
    type V = HrefV;

    open spec fn deep_view(&self) -> HrefV {
        match self {
            Href::Remote(u) => HrefV::Remote(u@),
            Href::Local(k) => HrefV::Local(k@),
        }
    }
}

/// The key under which a target is looked up: the anchor key of a local
/// target, the normalized text of a remote one.
pub open spec fn href_key(h: HrefV) -> Seq<char> {
    match h {
        HrefV::Remote(u) => u,
        HrefV::Local(k) => k,
    }
}

impl Href {
    pub fn as_ref(&self) -> (r: &str)
        ensures
            r@ == href_key(self.deep_view()),
    {
        match self {
            Href::Remote(u) => u.as_str(),
            Href::Local(k) => k.as_str(),
        }
    }
}

/// An inline image resolved to a binary resource identifier.
#[derive(Debug, PartialEq)]
pub struct InlineImage {
    pub id: u128,
    pub alt: Option<String>,
}

/// Mirror of [`InlineImage`].
#[verifier::ext_equal]
pub struct InlineImageV {
    pub id: u128,
    pub alt: Option<Seq<char>>,
}

impl DeepView for InlineImage {
    type V = InlineImageV;

    open spec fn deep_view(&self) -> InlineImageV {
        InlineImageV { id: self.id, alt: self.alt.deep_view() }
    }
}

#[derive(Debug, Clone, Copy, PartialEq, Eq, Structural)]
pub enum FootnoteKind {
    Note,
    Comment,
}

/// A reference into the notes or comments collection.
#[derive(Debug, PartialEq)]
pub struct FootnoteLink {
    pub id: String,
    pub kind: FootnoteKind,
    pub content: Vec<Text>,
}

/// Mirror of [`FootnoteLink`].
#[verifier::ext_equal]
pub struct FootnoteLinkV {
    pub id: Seq<char>,
    pub kind: FootnoteKind,
    pub content: Seq<TextV>,
}

impl DeepView for FootnoteLink {
    type V = FootnoteLinkV;

    open spec fn deep_view(&self) -> FootnoteLinkV {
        FootnoteLinkV { id: self.id@, kind: self.kind, content: self.content.deep_view() }
    }
}

/// A generic hyperlink span.
#[derive(Debug, PartialEq)]
pub struct Link {
    pub href: Href,
    pub content: Vec<Text>,
}

/// Mirror of [`Link`].
#[verifier::ext_equal]
pub struct LinkV {
    pub href: HrefV,
    pub content: Seq<TextV>,
}

impl DeepView for Link {
    type V = LinkV;

    open spec fn deep_view(&self) -> LinkV {
        LinkV { href: self.href.deep_view(), content: self.content.deep_view() }
    }
}

/// One flat inline span.
#[derive(Debug, PartialEq)]
pub enum Span {
    Footnote(FootnoteLink),
    Link(Link),
    Image(InlineImage),
    Text(Text),
}

/// Mirror of [`Span`].
#[verifier::ext_equal]
pub enum SpanV {
    Footnote(FootnoteLinkV),
    Link(LinkV),
    Image(InlineImageV),
    Text(TextV),
}

impl DeepView for Span {
    type V = SpanV;

    open spec fn deep_view(&self) -> SpanV {
        match self {
            Span::Footnote(f) => SpanV::Footnote(f.deep_view()),
            Span::Link(l) => SpanV::Link(l.deep_view()),
            Span::Image(i) => SpanV::Image(i.deep_view()),
            Span::Text(t) => SpanV::Text(t.deep_view()),
        }
    }
}

// ---------------------------------------------------------------------------
// Block-level content
// ---------------------------------------------------------------------------

/// A block image resolved to a binary resource identifier.
#[derive(Debug, PartialEq)]
pub struct Image {
    pub id: u128,
    pub anchor: Option<String>,
    pub alt: Option<String>,
    pub title: Option<String>,
}

/// Mirror of [`Image`].
#[verifier::ext_equal]
pub struct ImageV {
    pub id: u128,
    pub anchor: Option<Seq<char>>,
    pub alt: Option<Seq<char>>,
    pub title: Option<Seq<char>>,
}

impl DeepView for Image {
    type V = ImageV;

    open spec fn deep_view(&self) -> ImageV {
        ImageV {
            id: self.id,
            anchor: self.anchor.deep_view(),
            alt: self.alt.deep_view(),
            title: self.title.deep_view(),
        }
    }
}

/// A paragraph of flat inline spans; never empty.
#[derive(Debug, PartialEq)]
pub struct Paragraph {
    pub anchor: Option<String>,
    pub content: Vec<Span>,
}

/// Mirror of [`Paragraph`].
#[verifier::ext_equal]
pub struct ParagraphV {
    pub anchor: Option<Seq<char>>,
    pub content: Seq<SpanV>,
}

impl DeepView for Paragraph {
    type V = ParagraphV;

    open spec fn deep_view(&self) -> ParagraphV {
        ParagraphV { anchor: self.anchor.deep_view(), content: self.content.deep_view() }
    }
}

/// A table cell; an empty cell is kept, dropping it would misalign the
/// columns of its row.
#[derive(Debug, PartialEq)]
pub struct TableCell {
    pub anchor: Option<String>,
    pub content: Vec<Span>,
}

/// Mirror of [`TableCell`].
#[verifier::ext_equal]
pub struct TableCellV {
    pub anchor: Option<Seq<char>>,
    pub content: Seq<SpanV>,
}

impl DeepView for TableCell {
    type V = TableCellV;

    open spec fn deep_view(&self) -> TableCellV {
        TableCellV { anchor: self.anchor.deep_view(), content: self.content.deep_view() }
    }
}

#[derive(Debug, PartialEq)]
pub struct TableRow {
    pub cells: Vec<TableCell>,
}

/// Mirror of [`TableRow`].
#[verifier::ext_equal]
pub struct TableRowV {
    pub cells: Seq<TableCellV>,
}

impl DeepView for TableRow {
    type V = TableRowV;

    open spec fn deep_view(&self) -> TableRowV {
        TableRowV { cells: self.cells.deep_view() }
    }
}

/// A table with its two inferred header booleans; it keeps at least one
/// row.
#[derive(Debug, PartialEq)]
pub struct Table {
    pub anchor: Option<String>,
    pub header_column: bool,
    pub header_row: bool,
    pub rows: Vec<TableRow>,
}

/// Mirror of [`Table`].
#[verifier::ext_equal]
pub struct TableV {
    pub anchor: Option<Seq<char>>,
    pub header_column: bool,
    pub header_row: bool,
    pub rows: Seq<TableRowV>,
}

impl DeepView for Table {
    type V = TableV;

    open spec fn deep_view(&self) -> TableV {
        TableV {
            anchor: self.anchor.deep_view(),
            header_column: self.header_column,
            header_row: self.header_row,
            rows: self.rows.deep_view(),
        }
    }
}

#[derive(Debug, PartialEq)]
pub enum TitleElement {
    Paragraph(Paragraph),
    EmptyLine,
}

/// Mirror of [`TitleElement`].
#[verifier::ext_equal]
pub enum TitleElementV {
    Paragraph(ParagraphV),
    EmptyLine,
}

impl DeepView for TitleElement {
    type V = TitleElementV;

    open spec fn deep_view(&self) -> TitleElementV {
        match self {
            TitleElement::Paragraph(p) => TitleElementV::Paragraph(p.deep_view()),
            TitleElement::EmptyLine => TitleElementV::EmptyLine,
        }
    }
}

/// A title block; never empty.
#[derive(Debug, PartialEq)]
pub struct Title {
    pub content: Vec<TitleElement>,
}

/// Mirror of [`Title`].
#[verifier::ext_equal]
pub struct TitleV {
    pub content: Seq<TitleElementV>,
}

impl DeepView for Title {
    type V = TitleV;

    open spec fn deep_view(&self) -> TitleV {
        TitleV { content: self.content.deep_view() }
    }
}

/// A stanza of a poem; its lines are never empty.
#[derive(Debug, PartialEq)]
pub struct Stanza {
    pub title: Option<Title>,
    pub subtitle: Option<Paragraph>,
    pub content: Vec<Paragraph>,
}

/// Mirror of [`Stanza`].
#[verifier::ext_equal]
pub struct StanzaV {
    pub title: Option<TitleV>,
    pub subtitle: Option<ParagraphV>,
    pub content: Seq<ParagraphV>,
}

impl DeepView for Stanza {
    type V = StanzaV;

    open spec fn deep_view(&self) -> StanzaV {
        StanzaV {
            title: self.title.deep_view(),
            subtitle: self.subtitle.deep_view(),
            content: self.content.deep_view(),
        }
    }
}

// The block cluster below is mutually recursive: a poem holds epigraphs,
// an epigraph may hold a cite, a cite may hold a poem again.

#[derive(Debug, PartialEq)]
pub enum PoemElement {
    Subtitle(Paragraph),
    Stanza(Stanza),
}

/// Mirror of [`PoemElement`].
#[verifier::ext_equal]
pub enum PoemElementV {
    Subtitle(ParagraphV),
    Stanza(StanzaV),
}

impl DeepView for PoemElement {
    type V = PoemElementV;

    open spec fn deep_view(&self) -> PoemElementV {
        match self {
            PoemElement::Subtitle(p) => PoemElementV::Subtitle(p.deep_view()),
            PoemElement::Stanza(s) => PoemElementV::Stanza(s.deep_view()),
        }
    }
}

/// A poem; its element list is never empty.
#[derive(Debug, PartialEq)]
pub struct Poem {
    pub anchor: Option<String>,
    pub title: Option<Title>,
    pub epigraphs: Vec<Epigraph>,
    pub authors: Vec<Paragraph>,
    pub content: Vec<PoemElement>,
}

/// Mirror of [`Poem`].
#[verifier::ext_equal]
pub struct PoemV {
    pub anchor: Option<Seq<char>>,
    pub title: Option<TitleV>,
    pub epigraphs: Seq<EpigraphV>,
    pub authors: Seq<ParagraphV>,
    pub content: Seq<PoemElementV>,
}

// The views of the recursive cluster are free spec functions rather than
// `DeepView` impls: the impls would form a trait cycle.

#[derive(Debug, PartialEq)]
pub enum EpigraphElement {
    Paragraph(Paragraph),
    Poem(Poem),
    Cite(Cite),
    EmptyLine,
}

/// Mirror of [`EpigraphElement`].
#[verifier::ext_equal]
pub enum EpigraphElementV {
    Paragraph(ParagraphV),
    Poem(PoemV),
    Cite(CiteV),
    EmptyLine,
}


/// An epigraph; its element list is never empty.
#[derive(Debug, PartialEq)]
pub struct Epigraph {
    pub anchor: Option<String>,
    pub authors: Vec<Paragraph>,
    pub content: Vec<EpigraphElement>,
}

/// Mirror of [`Epigraph`].
#[verifier::ext_equal]
pub struct EpigraphV {
    pub anchor: Option<Seq<char>>,
    pub authors: Seq<ParagraphV>,
    pub content: Seq<EpigraphElementV>,
}


#[derive(Debug, PartialEq)]
pub enum CiteElement {
    Paragraph(Paragraph),
    Poem(Poem),
    Subtitle(Paragraph),
    Table(Table),
    EmptyLine,
}

/// Mirror of [`CiteElement`].
#[verifier::ext_equal]
pub enum CiteElementV {
    Paragraph(ParagraphV),
    Poem(PoemV),
    Subtitle(ParagraphV),
    Table(TableV),
    EmptyLine,
}


/// A citation; its element list is never empty.
#[derive(Debug, PartialEq)]
pub struct Cite {
    pub anchor: Option<String>,
    pub authors: Vec<Paragraph>,
    pub content: Vec<CiteElement>,
}

/// Mirror of [`Cite`].
#[verifier::ext_equal]
pub struct CiteV {
    pub anchor: Option<Seq<char>>,
    pub authors: Seq<ParagraphV>,
    pub content: Seq<CiteElementV>,
}


#[derive(Debug, PartialEq)]
pub enum AnnotationElement {
    Paragraph(Paragraph),
    Poem(Poem),
    Cite(Cite),
    Subtitle(Paragraph),
    Table(Table),
    EmptyLine,
}

/// Mirror of [`AnnotationElement`].
#[verifier::ext_equal]
pub enum AnnotationElementV {
    Paragraph(ParagraphV),
    Poem(PoemV),
    Cite(CiteV),
    Subtitle(ParagraphV),
    Table(TableV),
    EmptyLine,
}

impl DeepView for AnnotationElement {
    type V = AnnotationElementV;

    open spec fn deep_view(&self) -> AnnotationElementV {
        match self {
            AnnotationElement::Paragraph(p) => AnnotationElementV::Paragraph(p.deep_view()),
            AnnotationElement::Poem(p) => AnnotationElementV::Poem(view_poem(*p)),
            AnnotationElement::Cite(c) => AnnotationElementV::Cite(view_cite(*c)),
            AnnotationElement::Subtitle(p) => AnnotationElementV::Subtitle(p.deep_view()),
            AnnotationElement::Table(t) => AnnotationElementV::Table(t.deep_view()),
            AnnotationElement::EmptyLine => AnnotationElementV::EmptyLine,
        }
    }
}

/// An annotation; its element list is never empty.
#[derive(Debug, PartialEq)]
pub struct Annotation {
    pub anchor: Option<String>,
    pub content: Vec<AnnotationElement>,
}

/// Mirror of [`Annotation`].
#[verifier::ext_equal]
pub struct AnnotationV {
    pub anchor: Option<Seq<char>>,
    pub content: Seq<AnnotationElementV>,
}

impl DeepView for Annotation {
    type V = AnnotationV;

    open spec fn deep_view(&self) -> AnnotationV {
        AnnotationV { anchor: self.anchor.deep_view(), content: self.content.deep_view() }
    }
}

/// One block-level content item; blank-line spacing is a first-class item.
#[derive(Debug, PartialEq)]
pub enum Content {
    Paragraph(Paragraph),
    Poem(Poem),
    Subtitle(Paragraph),
    Cite(Cite),
    Table(Table),
    Image(Image),
    EmptyLine,
}

/// Mirror of [`Content`].
#[verifier::ext_equal]
pub enum ContentV {
    Paragraph(ParagraphV),
    Poem(PoemV),
    Subtitle(ParagraphV),
    Cite(CiteV),
    Table(TableV),
    Image(ImageV),
    EmptyLine,
}

impl DeepView for Content {
    type V = ContentV;

    open spec fn deep_view(&self) -> ContentV {
        match self {
            Content::Paragraph(p) => ContentV::Paragraph(p.deep_view()),
            Content::Poem(p) => ContentV::Poem(view_poem(*p)),
            Content::Subtitle(p) => ContentV::Subtitle(p.deep_view()),
            Content::Cite(c) => ContentV::Cite(view_cite(*c)),
            Content::Table(t) => ContentV::Table(t.deep_view()),
            Content::Image(i) => ContentV::Image(i.deep_view()),
            Content::EmptyLine => ContentV::EmptyLine,
        }
    }
}

/// A chapter; it keeps block content, sub-chapters, or both.
#[derive(Debug, PartialEq)]
pub struct Chapter {
    pub anchor: Option<String>,
    pub title: Option<Title>,
    pub annotation: Option<Annotation>,
    pub cover: Option<Image>,
    pub epigraphs: Vec<Epigraph>,
    pub content: Vec<Content>,
    pub sub_chapters: Vec<Chapter>,
}

/// Mirror of [`Chapter`].
#[verifier::ext_equal]
pub struct ChapterV {
    pub anchor: Option<Seq<char>>,
    pub title: Option<TitleV>,
    pub annotation: Option<AnnotationV>,
    pub cover: Option<ImageV>,
    pub epigraphs: Seq<EpigraphV>,
    pub content: Seq<ContentV>,
    pub sub_chapters: Seq<ChapterV>,
}

// ---------------------------------------------------------------------------
// Views of the recursive cluster
// ---------------------------------------------------------------------------

pub open spec fn view_poem(p: Poem) -> PoemV
    decreases p,
{
    PoemV {
        anchor: p.anchor.deep_view(),
        title: p.title.deep_view(),
        epigraphs: view_epigraphs(p.epigraphs@),
        authors: p.authors.deep_view(),
        content: p.content.deep_view(),
    }
}

pub open spec fn view_epigraphs(s: Seq<Epigraph>) -> Seq<EpigraphV>
    decreases s,
{
    if s.len() == 0 {
        Seq::empty()
    } else {
        view_epigraphs(s.drop_last()).push(view_epigraph(s.last()))
    }
}

pub open spec fn view_epigraph(e: Epigraph) -> EpigraphV
    decreases e,
{
    EpigraphV {
        anchor: e.anchor.deep_view(),
        authors: e.authors.deep_view(),
        content: view_epigraph_elements(e.content@),
    }
}

pub open spec fn view_epigraph_elements(s: Seq<EpigraphElement>) -> Seq<EpigraphElementV>
    decreases s,
{
    if s.len() == 0 {
        Seq::empty()
    } else {
        view_epigraph_elements(s.drop_last()).push(view_epigraph_element(s.last()))
    }
}

pub open spec fn view_epigraph_element(e: EpigraphElement) -> EpigraphElementV
    decreases e,
{
    match e {
        EpigraphElement::Paragraph(p) => EpigraphElementV::Paragraph(p.deep_view()),
        EpigraphElement::Poem(p) => EpigraphElementV::Poem(view_poem(p)),
        EpigraphElement::Cite(c) => EpigraphElementV::Cite(view_cite(c)),
        EpigraphElement::EmptyLine => EpigraphElementV::EmptyLine,
    }
}

pub open spec fn view_cite(c: Cite) -> CiteV
    decreases c,
{
    CiteV {
        anchor: c.anchor.deep_view(),
        authors: c.authors.deep_view(),
        content: view_cite_elements(c.content@),
    }
}

pub open spec fn view_cite_elements(s: Seq<CiteElement>) -> Seq<CiteElementV>
    decreases s,
{
    if s.len() == 0 {
        Seq::empty()
    } else {
        view_cite_elements(s.drop_last()).push(view_cite_element(s.last()))
    }
}

pub open spec fn view_cite_element(e: CiteElement) -> CiteElementV
    decreases e,
{
    match e {
        CiteElement::Paragraph(p) => CiteElementV::Paragraph(p.deep_view()),
        CiteElement::Poem(p) => CiteElementV::Poem(view_poem(p)),
        CiteElement::Subtitle(p) => CiteElementV::Subtitle(p.deep_view()),
        CiteElement::Table(t) => CiteElementV::Table(t.deep_view()),
        CiteElement::EmptyLine => CiteElementV::EmptyLine,
    }
}

pub open spec fn view_chapter(c: Chapter) -> ChapterV
    decreases c,
{
    ChapterV {
        anchor: c.anchor.deep_view(),
        title: c.title.deep_view(),
        annotation: c.annotation.deep_view(),
        cover: c.cover.deep_view(),
        epigraphs: view_epigraphs(c.epigraphs@),
        content: c.content.deep_view(),
        sub_chapters: view_chapters(c.sub_chapters@),
    }
}

pub open spec fn view_chapters(s: Seq<Chapter>) -> Seq<ChapterV>
    decreases s,
{
    if s.len() == 0 {
        Seq::empty()
    } else {
        view_chapters(s.drop_last()).push(view_chapter(s.last()))
    }
}

pub open spec fn opt_view_poem(o: Option<Poem>) -> Option<PoemV> {
    match o {
        Some(p) => Some(view_poem(p)),
        None => None,
    }
}

pub open spec fn opt_view_epigraph(o: Option<Epigraph>) -> Option<EpigraphV> {
    match o {
        Some(e) => Some(view_epigraph(e)),
        None => None,
    }
}

pub open spec fn opt_view_cite(o: Option<Cite>) -> Option<CiteV> {
    match o {
        Some(c) => Some(view_cite(c)),
        None => None,
    }
}

pub open spec fn opt_view_chapter(o: Option<Chapter>) -> Option<ChapterV> {
    match o {
        Some(c) => Some(view_chapter(c)),
        None => None,
    }
}

// ---------------------------------------------------------------------------
// Footnotes, authors, the book
// ---------------------------------------------------------------------------

/// One footnote entry; its block content is never empty.
#[derive(Debug, PartialEq)]
pub struct Footnote {
    pub title: Option<Title>,
    pub content: Vec<Content>,
}

/// Mirror of [`Footnote`].
#[verifier::ext_equal]
pub struct FootnoteV {
    pub title: Option<TitleV>,
    pub content: Seq<ContentV>,
}

impl DeepView for Footnote {
    type V = FootnoteV;

    open spec fn deep_view(&self) -> FootnoteV {
        FootnoteV { title: self.title.deep_view(), content: self.content.deep_view() }
    }
}

/// A footnote or comment collection; never empty.  Entries are kept in
/// insertion order; an entry with the same key as an earlier one shadows
/// it, and the map view keeps the later entry.
#[derive(Debug, PartialEq)]
pub struct Footnotes {
    pub title: Option<Title>,
    pub content: Vec<(String, Footnote)>,
}

/// Mirror of [`Footnotes`]: the key-indexed map the entries describe.
#[verifier::ext_equal]
pub struct FootnotesV {
    pub title: Option<TitleV>,
    pub content: Map<Seq<char>, FootnoteV>,
}

impl DeepView for Footnotes {
    type V = FootnotesV;

    open spec fn deep_view(&self) -> FootnotesV {
        FootnotesV { title: self.title.deep_view(), content: assoc_map(self.content.deep_view()) }
    }
}

/// An author with an assembled display name; never constructed without
/// one.
#[derive(Debug, PartialEq)]
pub struct Author {
    pub id: u128,
    pub full_name: String,
    pub given_name: Option<String>,
    pub family_name: Option<String>,
    pub middle_name: Option<String>,
}

/// Mirror of [`Author`].
#[verifier::ext_equal]
pub struct AuthorV {
    pub id: u128,
    pub full_name: Seq<char>,
    pub given_name: Option<Seq<char>>,
    pub family_name: Option<Seq<char>>,
    pub middle_name: Option<Seq<char>>,
}

impl DeepView for Author {
    type V = AuthorV;

    open spec fn deep_view(&self) -> AuthorV {
        AuthorV {
            id: self.id,
            full_name: self.full_name@,
            given_name: self.given_name.deep_view(),
            family_name: self.family_name.deep_view(),
            middle_name: self.middle_name.deep_view(),
        }
    }
}

/// The canonical book.
#[derive(Debug, PartialEq)]
pub struct Book {
    pub id: u128,
    pub language: Option<language_tags::LanguageTag>,
    pub short_title: String,
    pub date: Date,
    pub authors: Vec<Author>,
    pub cover: Option<InlineImage>,
    pub annotation: Option<Annotation>,
    pub title: Option<Title>,
    pub epigraphs: Vec<Epigraph>,
    pub notes: Option<Footnotes>,
    pub comments: Option<Footnotes>,
    pub chapters: Vec<Chapter>,
}

/// Mirror of [`Book`].  The language is carried as an opaque outside
/// value and is pinned by its own clauses instead of a mirror field.
#[verifier::ext_equal]
pub struct BookV {
    pub id: u128,
    pub short_title: Seq<char>,
    pub date: DateV,
    pub authors: Seq<AuthorV>,
    pub cover: Option<InlineImageV>,
    pub annotation: Option<AnnotationV>,
    pub title: Option<TitleV>,
    pub epigraphs: Seq<EpigraphV>,
    pub notes: Option<FootnotesV>,
    pub comments: Option<FootnotesV>,
    pub chapters: Seq<ChapterV>,
}

impl DeepView for Book {
    type V = BookV;

    open spec fn deep_view(&self) -> BookV {
        BookV {
            id: self.id,
            short_title: self.short_title@,
            date: self.date.deep_view(),
            authors: self.authors.deep_view(),
            cover: self.cover.deep_view(),
            annotation: self.annotation.deep_view(),
            title: self.title.deep_view(),
            epigraphs: view_epigraphs(self.epigraphs@),
            notes: self.notes.deep_view(),
            comments: self.comments.deep_view(),
            chapters: view_chapters(self.chapters@),
        }
    }
}

// ---------------------------------------------------------------------------
// Facet application
// ---------------------------------------------------------------------------

/// One independently-composable styling attribute a wrapper can apply.
#[derive(Debug, Clone, Copy, PartialEq, Eq, Structural)]
pub enum StyleFacet {
    Bold,
    Italic,
    Code,
    Strikethrough,
    Subscript,
    Superscript,
}

/// Applying a facet to a text run augments exactly one styling field and
/// leaves the value and the other fields unchanged.
pub open spec fn apply_facet_text(f: StyleFacet, t: TextV) -> TextV {
    match f {
        StyleFacet::Bold => TextV { font_weight: Some(BOLD_WEIGHT), ..t },
        StyleFacet::Italic => TextV {
            font_style: FontStyleSet { italic: true, ..t.font_style },
            ..t
        },
        StyleFacet::Code => TextV { font_style: FontStyleSet { code: true, ..t.font_style }, ..t },
        StyleFacet::Strikethrough => TextV {
            decorations: TextDecorationSet { line_through: true },
            ..t
        },
        StyleFacet::Subscript => TextV { baseline_shift: Some(BaselineShift::Subscript), ..t },
        StyleFacet::Superscript => TextV { baseline_shift: Some(BaselineShift::Superscript), ..t },
    }
}

pub open spec fn apply_facet_texts(f: StyleFacet, ts: Seq<TextV>) -> Seq<TextV> {
    ts.map_values(|t: TextV| apply_facet_text(f, t))
}

/// A facet reaches every text run of a span, including the runs inside
/// footnote references and links, but not images.
pub open spec fn apply_facet_span(f: StyleFacet, s: SpanV) -> SpanV {
    match s {
        SpanV::Footnote(fl) => SpanV::Footnote(
            FootnoteLinkV { content: apply_facet_texts(f, fl.content), ..fl },
        ),
        SpanV::Link(l) => SpanV::Link(LinkV { content: apply_facet_texts(f, l.content), ..l }),
        SpanV::Image(i) => SpanV::Image(i),
        SpanV::Text(t) => SpanV::Text(apply_facet_text(f, t)),
    }
}

pub open spec fn apply_facet_spans(f: StyleFacet, ss: Seq<SpanV>) -> Seq<SpanV> {
    ss.map_values(|s: SpanV| apply_facet_span(f, s))
}

/// Whether two facets touch distinct styling fields of a text run.
/// Only a subscript and a superscript wrapper compete for a field.
pub open spec fn facets_disjoint(a: StyleFacet, b: StyleFacet) -> bool {
    a != b && !(a == StyleFacet::Subscript && b == StyleFacet::Superscript) && !(a
        == StyleFacet::Superscript && b == StyleFacet::Subscript)
}

/// Facets that touch distinct fields compose in either order to the same
/// result.
pub proof fn lemma_facet_commute(a: StyleFacet, b: StyleFacet, t: TextV)
    requires
        facets_disjoint(a, b),
    ensures
        apply_facet_text(a, apply_facet_text(b, t)) == apply_facet_text(b, apply_facet_text(a, t)),
{
    assert(apply_facet_text(a, apply_facet_text(b, t)) =~= apply_facet_text(
        b,
        apply_facet_text(a, t),
    ));
}

/// Style composition is order-independent for disjoint facets: a text run
/// wrapped in italic, bold and subscript wrappers, in any nesting order,
/// ends up italic, with the bold weight, shifted to subscript, and with its
/// value untouched.
pub proof fn lemma_style_composition(a: StyleFacet, b: StyleFacet, c: StyleFacet, t: TextV)
    requires
        a != b && b != c && a != c,
        a == StyleFacet::Italic || a == StyleFacet::Bold || a == StyleFacet::Subscript,
        b == StyleFacet::Italic || b == StyleFacet::Bold || b == StyleFacet::Subscript,
        c == StyleFacet::Italic || c == StyleFacet::Bold || c == StyleFacet::Subscript,
    ensures
        ({
            let r = apply_facet_text(a, apply_facet_text(b, apply_facet_text(c, t)));
            &&& r.font_style.has(FontStyle::Italic)
            &&& r.font_weight == Some(BOLD_WEIGHT)
            &&& r.baseline_shift == Some(BaselineShift::Subscript)
            &&& r.value == t.value
            &&& r.decorations == t.decorations
            &&& r.font_style.code == t.font_style.code
        }),
{
}

// ---------------------------------------------------------------------------
// Vector views
// ---------------------------------------------------------------------------

/// The deep view of a vector has one element per vector element.
pub broadcast proof fn lemma_vec_deep_view_len<T: DeepView>(v: Vec<T>)
    ensures
        (#[trigger] v.deep_view()).len() == v@.len(),
{
}

/// The deep view of a vector is the element-wise deep view.
pub broadcast proof fn lemma_vec_deep_view_index<T: DeepView>(v: Vec<T>, i: int)
    requires
        0 <= i < v@.len(),
    ensures
        #[trigger] v.deep_view()[i] == v@[i].deep_view(),
{
}

/// The element-wise deep view of a sequence.
pub open spec fn dseq<T: DeepView>(s: Seq<T>) -> Seq<T::V> {
    Seq::new(s.len(), |i: int| s[i].deep_view())
}

pub broadcast proof fn lemma_dseq_len<T: DeepView>(s: Seq<T>)
    ensures
        (#[trigger] dseq(s)).len() == s.len(),
{
}

pub broadcast proof fn lemma_dseq_index<T: DeepView>(s: Seq<T>, i: int)
    requires
        0 <= i < s.len(),
    ensures
        #[trigger] dseq(s)[i] == s[i].deep_view(),
{
}

/// A vector's deep view is the element-wise deep view of its view.
pub broadcast proof fn lemma_dseq_vec<T: DeepView>(v: Vec<T>)
    ensures
        #[trigger] v.deep_view() == dseq(v@),
{
    assert forall|i: int| 0 <= i < v@.len() implies v.deep_view()[i] == dseq(v@)[i] by {
        lemma_vec_deep_view_index(v, i);
        lemma_dseq_index(v@, i);
    }
    lemma_vec_deep_view_len(v);
    lemma_dseq_len(v@);
    assert(v.deep_view() =~= dseq(v@));
}

pub broadcast proof fn lemma_dseq_push<T: DeepView>(s: Seq<T>, x: T)
    ensures
        #[trigger] dseq(s.push(x)) == dseq(s).push(x.deep_view()),
{
    assert forall|i: int| 0 <= i < s.len() + 1 implies dseq(s.push(x))[i] == dseq(s).push(
        x.deep_view(),
    )[i] by {
        assert(s.push(x)[i] == if i < s.len() {
            s[i]
        } else {
            x
        });
    }
    assert(dseq(s.push(x)) =~= dseq(s).push(x.deep_view()));
}

pub broadcast proof fn lemma_dseq_add<T: DeepView>(a: Seq<T>, b: Seq<T>)
    ensures
        #[trigger] dseq(a + b) == dseq(a) + dseq(b),
{
    assert forall|i: int| 0 <= i < a.len() + b.len() implies dseq(a + b)[i] == (dseq(a) + dseq(
        b,
    ))[i] by {
        assert((a + b)[i] == if i < a.len() {
            a[i]
        } else {
            b[i - a.len()]
        });
    }
    assert(dseq(a + b) =~= dseq(a) + dseq(b));
}

pub broadcast proof fn lemma_dseq_take<T: DeepView>(s: Seq<T>, i: int)
    requires
        0 <= i <= s.len(),
    ensures
        #[trigger] dseq(s.take(i)) == dseq(s).take(i),
{
    assert forall|j: int| 0 <= j < i implies dseq(s.take(i))[j] == dseq(s).take(i)[j] by {
        assert(s.take(i)[j] == s[j]);
    }
    assert(dseq(s.take(i)) =~= dseq(s).take(i));
}

pub broadcast proof fn lemma_dseq_skip<T: DeepView>(s: Seq<T>, i: int)
    requires
        0 <= i <= s.len(),
    ensures
        #[trigger] dseq(s.skip(i)) == dseq(s).skip(i),
{
    assert forall|j: int| 0 <= j < s.len() - i implies dseq(s.skip(i))[j] == dseq(s).skip(i)[j] by {
        assert(s.skip(i)[j] == s[i + j]);
    }
    assert(dseq(s.skip(i)) =~= dseq(s).skip(i));
}

// ---------------------------------------------------------------------------
// Verified association list indexes
// ---------------------------------------------------------------------------

/// The finite map described by an association sequence; a later entry with
/// the same key overrides an earlier one.
pub open spec fn assoc_map<V>(s: Seq<(Seq<char>, V)>) -> Map<Seq<char>, V>
    decreases s.len(),
{
    if s.len() == 0 {
        Map::empty()
    } else {
        assoc_map(s.drop_last()).insert(s.last().0, s.last().1)
    }
}

/// Lookup in a map, as an `Option`.
pub open spec fn map_get<V>(m: Map<Seq<char>, V>, k: Seq<char>) -> Option<V> {
    if m.contains_key(k) {
        Some(m[k])
    } else {
        None
    }
}

/// The set of keys occurring in a key sequence.
pub open spec fn key_set_of(s: Seq<Seq<char>>) -> Set<Seq<char>>
    decreases s.len(),
{
    if s.len() == 0 {
        Set::empty()
    } else {
        key_set_of(s.drop_last()).insert(s.last())
    }
}

proof fn lemma_assoc_map_prefix<V>(s: Seq<(Seq<char>, V)>, k: Seq<char>, i: int)
    requires
        0 <= i <= s.len(),
        forall|j: int| i <= j < s.len() ==> (#[trigger] s[j]).0 != k,
    ensures
        map_get(assoc_map(s), k) == map_get(assoc_map(s.take(i)), k),
    decreases s.len() - i,
{
    if i < s.len() {
        let s1 = s.take(s.len() - 1);
        assert(s1 =~= s.drop_last());
        assert(s.last().0 != k);
        lemma_assoc_map_prefix(s1, k, i);
        assert(s1.take(i) =~= s.take(i));
    } else {
        assert(s.take(i) =~= s);
    }
}

proof fn lemma_key_set_of_contains(s: Seq<Seq<char>>, k: Seq<char>)
    ensures
        key_set_of(s).contains(k) <==> exists|j: int| 0 <= j < s.len() && s[j] == k,
    decreases s.len(),
{
    if s.len() > 0 {
        lemma_key_set_of_contains(s.drop_last(), k);
        if s.last() == k {
            assert(s[s.len() - 1] == k);
        } else if key_set_of(s).contains(k) {
            let j = choose|j: int| 0 <= j < s.drop_last().len() && s.drop_last()[j] == k;
            assert(s[j] == k);
        } else if exists|j: int| 0 <= j < s.len() && s[j] == k {
            let j = choose|j: int| 0 <= j < s.len() && s[j] == k;
            assert(s.drop_last()[j] == k);
        }
    }
}

/// The caller-supplied index from binary resource names to the stable
/// identifiers the canonical document uses for them.
#[derive(Debug)]
pub struct BinaryIndex {
    entries: Vec<(String, u128)>,
}

impl View for BinaryIndex {
    type V = Map<Seq<char>, u128>;

    closed spec fn view(&self) -> Map<Seq<char>, u128> {
        assoc_map(self.entries.deep_view())
    }
}

impl BinaryIndex {
    pub fn new() -> (r: BinaryIndex)
        ensures
            r@ == Map::<Seq<char>, u128>::empty(),
    {
        let r = BinaryIndex { entries: Vec::new() };
        proof {
            assert(r.entries.deep_view() =~= Seq::<(Seq<char>, u128)>::empty());
        }
        r
    }

    /// Bind `name` to `id`; a later binding for the same name wins.
    pub fn insert(&mut self, name: String, id: u128)
        ensures
            final(self)@ == old(self)@.insert(name@, id),
    {
        let ghost before = self.entries.deep_view();
        self.entries.push((name, id));
        proof {
            let after = self.entries.deep_view();
            assert(after =~= before.push((name@, id)));
            assert(after.drop_last() =~= before);
        }
    }

    /// Look the name up; the most recent binding is returned.
    pub fn get(&self, name: &str) -> (r: Option<u128>)
        ensures
            r == map_get(self@, name@),
    {
        let key = name.to_owned();
        let mut i = self.entries.len();
        while i > 0
            invariant
                i <= self.entries.len(),
                key@ == name@,
                forall|j: int|
                    i <= j < self.entries.len() ==> (#[trigger] self.entries.deep_view()[j]).0
                        != name@,
            decreases i,
        {
            i = i - 1;
            if self.entries[i].0 == key {
                proof {
                    let d = self.entries.deep_view();
                    lemma_assoc_map_prefix(d, name@, i + 1);
                    assert(d.take(i + 1).last() == d[i as int]);
                    assert(d.take(i + 1).drop_last() =~= d.take(i as int));
                    assert(d[i as int].0 == name@);
                }
                return Some(self.entries[i].1);
            }
            proof {
                assert(self.entries.deep_view()[i as int].0 != name@);
            }
        }
        proof {
            let d = self.entries.deep_view();
            lemma_assoc_map_prefix(d, name@, 0);
            assert(d.take(0) =~= Seq::<(Seq<char>, u128)>::empty());
        }
        None
    }
}

/// A set of footnote or comment target keys.
#[derive(Debug)]
pub struct KeySet {
    keys: Vec<String>,
}

impl View for KeySet {
    type V = Set<Seq<char>>;

    closed spec fn view(&self) -> Set<Seq<char>> {
        key_set_of(self.keys.deep_view())
    }
}

impl KeySet {
    pub fn new() -> (r: KeySet)
        ensures
            r@ == Set::<Seq<char>>::empty(),
    {
        let r = KeySet { keys: Vec::new() };
        proof {
            assert(r.keys.deep_view() =~= Seq::<Seq<char>>::empty());
        }
        r
    }

    pub fn insert(&mut self, key: String)
        ensures
            final(self)@ == old(self)@.insert(key@),
    {
        let ghost before = self.keys.deep_view();
        self.keys.push(key);
        proof {
            let after = self.keys.deep_view();
            assert(after =~= before.push(key@));
            assert(after.drop_last() =~= before);
        }
    }

    pub fn contains(&self, key: &str) -> (r: bool)
        ensures
            r == self@.contains(key@),
    {
        let k = key.to_owned();
        let mut i: usize = 0;
        while i < self.keys.len()
            invariant
                i <= self.keys.len(),
                k@ == key@,
                forall|j: int| 0 <= j < i ==> #[trigger] self.keys.deep_view()[j] != key@,
            decreases self.keys.len() - i,
        {
            if self.keys[i] == k {
                proof {
                    lemma_key_set_of_contains(self.keys.deep_view(), key@);
                    assert(self.keys.deep_view()[i as int] == key@);
                }
                return true;
            }
            proof {
                assert(self.keys.deep_view()[i as int] != key@);
            }
            i = i + 1;
        }
        proof {
            lemma_key_set_of_contains(self.keys.deep_view(), key@);
        }
        false
    }
}

} // verus!
