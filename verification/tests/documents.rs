use lib::document::{generate_typst, generate_typst_with_options, page_size_with_options, write_body_para};
use lib::header_footer::{write_hf_paragraph, RULE_HAIRLINE_GAP};
use lib::ir::{
    note_run, Alignment, Block, BorderLineStyle, BorderSide, Caption, CellBorder, Color,
    ConvertOptions, Document, FixedElement, FixedElementKind, FixedPage, FlowPage, FrameAnchor,
    HFInline, HeaderFooter, HeaderFooterFrame, HeaderFooterParagraph, Insets, Margins, Page,
    PageNumberFormat, PageNumbering, PageSize, PaperSize, Paragraph, ParagraphStyle,
    PositionedTab, PositionedTabAlignment, Run, SheetPage, Table, TableCell, TableRow, TextStyle,
};
use lib::runs::generate_runs;

const PREAMBLE: &str = "#let o2p-page-format = state(\"o2p-page-format\", \"1\")\n#show outline.entry: it => link(it.element.location(), it.indented(it.prefix(), it.body() + box(width: 1fr, repeat[.]) + context numbering(o2p-page-format.at(it.element.location()), ..counter(page).at(it.element.location()))))\n";

const A4_SETUP: &str =
    "#set page(width: 595.28pt, height: 841.89pt, margin: (top: 72pt, bottom: 72pt, left: 72pt, right: 72pt)";

fn pt(points: i64) -> i64 {
    points * 10000
}

fn run(text: &str) -> Run {
    note_run(text)
}

fn paragraph(text: &str) -> Paragraph {
    Paragraph { style: ParagraphStyle::default(), runs: vec![run(text)] }
}

fn flow(content: Vec<Block>) -> FlowPage {
    FlowPage {
        size: PageSize::default(),
        margins: Margins::default(),
        content,
        header: None,
        footer: None,
                line_grid_pitch: None,
                page_numbering: None,
    }
}

fn line(elements: Vec<HFInline>) -> HeaderFooterParagraph {
    HeaderFooterParagraph {
        style: ParagraphStyle::default(),
        elements,
        border: None,
        border_space: None,
        frame: None,
    }
}

fn render_line(p: &HeaderFooterParagraph) -> String {
    let mut out = String::new();
    write_hf_paragraph(&mut out, p, PageNumberFormat::Decimal);
    out
}

#[test]
fn an_empty_document_is_its_preamble() {
    let out = generate_typst(&Document { pages: vec![] });
    assert_eq!(out.source, PREAMBLE);
}

#[test]
fn one_paragraph_page_is_setup_then_paragraph() {
    let doc = Document { pages: vec![Page::Flow(flow(vec![Block::Paragraph(paragraph("Hello"))]))] };
    let out = generate_typst(&doc);
    assert_eq!(out.source, format!("{PREAMBLE}{A4_SETUP})\nHello\n\n"));
}

#[test]
fn a_plain_header_flows_in_a_full_width_block() {
    let mut page = flow(vec![]);
    page.header = Some(HeaderFooter {
        distance_from_edge: None,
        paragraphs: vec![line(vec![HFInline::Run(run("H"))])],
    });
    let out = generate_typst(&Document { pages: vec![Page::Flow(page)] });
    assert_eq!(out.source, format!("{PREAMBLE}{A4_SETUP}, header: [#block(width: 100%)[H]\n])\n"));
}

#[test]
fn a_footer_short_of_the_margin_is_pinned_in_its_band() {
    let mut page = flow(vec![]);
    page.footer = Some(HeaderFooter {
        distance_from_edge: Some(354000),
        paragraphs: vec![line(vec![HFInline::Run(run("X"))])],
    });
    let out = generate_typst(&Document { pages: vec![Page::Flow(page)] });
    assert_eq!(
        out.source,
        format!(
            "{PREAMBLE}{A4_SETUP}, footer: [#block(width: 100%, height: 36.6pt)[#set text(bottom-edge: \"descender\")\n#place(bottom)[\n#block(width: 100%)[X]\n]]], footer-descent: 0pt)\n"
        )
    );
}

#[test]
fn a_footer_at_the_margin_keeps_the_default_placement() {
    let mut page = flow(vec![]);
    page.footer = Some(HeaderFooter {
        distance_from_edge: Some(pt(72)),
        paragraphs: vec![line(vec![HFInline::Run(run("X"))])],
    });
    let out = generate_typst(&Document { pages: vec![Page::Flow(page)] });
    assert_eq!(out.source, format!("{PREAMBLE}{A4_SETUP}, footer: [#block(width: 100%)[X]\n])\n"));
}

#[test]
fn a_pinned_header_grows_down_from_its_band() {
    let mut page = flow(vec![]);
    page.margins.top = pt(50);
    page.header = Some(HeaderFooter {
        distance_from_edge: Some(pt(20)),
        paragraphs: vec![line(vec![HFInline::Run(run("H"))])],
    });
    let out = generate_typst(&Document { pages: vec![Page::Flow(page)] });
    assert!(out.source.contains(
        ", header: [#block(width: 100%, height: 30pt)[#place(top)[\n#block(width: 100%)[H]\n]]], header-ascent: 0pt"
    ));
}

#[test]
fn run_properties_become_text_parameters_in_order() {
    let r = Run {
        text: "a_b".to_string(),
        style: TextStyle {
            bold: None,
            italic: Some(true),
            font_size: Some(105000),
            color: Some(Color::new(1, 2, 3)),
        },
        href: None,
        footnote: None,
    };
    let mut out = String::new();
    generate_runs(&mut out, &[r]);
    assert_eq!(out, "#text(style: \"italic\", size: 10.5pt, fill: rgb(1, 2, 3))[a\\_b]");
}

#[test]
fn a_bold_false_run_stays_bare() {
    let r = Run {
        text: "plain".to_string(),
        style: TextStyle { bold: Some(false), italic: Some(false), ..TextStyle::default() },
        href: None,
        footnote: None,
    };
    let mut out = String::new();
    generate_runs(&mut out, &[r]);
    assert_eq!(out, "plain");
}

#[test]
fn link_targets_escape_quotes_and_backslashes() {
    let r = Run {
        text: "t".to_string(),
        style: TextStyle::default(),
        href: Some("a\"b\\c".to_string()),
        footnote: None,
    };
    let mut out = String::new();
    generate_runs(&mut out, &[r]);
    assert_eq!(out, "#link(\"a\\\"b\\\\c\")[t]");
}

#[test]
fn a_note_follows_its_run_with_styled_runs() {
    let r = Run {
        text: "x".to_string(),
        style: TextStyle::default(),
        href: None,
        footnote: Some(vec![
            Run {
                text: "n".to_string(),
                style: TextStyle { bold: Some(true), ..TextStyle::default() },
                href: None,
                footnote: None,
            },
            note_run(" #2"),
        ]),
    };
    let mut out = String::new();
    generate_runs(&mut out, &[r]);
    assert_eq!(out, "x#footnote[#text(weight: \"bold\")[n] \\#2]");
}

#[test]
fn a_center_tab_splits_the_line_into_three_columns() {
    let p = line(vec![
        HFInline::Run(run("L")),
        HFInline::PositionedTab(PositionedTab { alignment: PositionedTabAlignment::Center }),
        HFInline::Run(run("C")),
    ]);
    assert_eq!(render_line(&p), "#grid(columns: (1fr, auto, 1fr), [L], [C], [])");
}

#[test]
fn only_the_first_tab_splits_a_line() {
    let p = line(vec![
        HFInline::Run(run("a")),
        HFInline::PositionedTab(PositionedTab { alignment: PositionedTabAlignment::Left }),
        HFInline::Run(run("b")),
        HFInline::PositionedTab(PositionedTab { alignment: PositionedTabAlignment::Right }),
        HFInline::Run(run("c")),
    ]);
    assert_eq!(render_line(&p), "#grid(columns: (auto, 1fr), [a], [bc])");
}

#[test]
fn page_fields_take_their_style_and_the_section_numerals() {
    let p = line(vec![
        HFInline::PageNumber(TextStyle::default()),
        HFInline::Run(run("/")),
        HFInline::TotalPages(TextStyle { bold: Some(true), ..TextStyle::default() }),
    ]);
    let mut out = String::new();
    write_hf_paragraph(&mut out, &p, PageNumberFormat::UpperLetter);
    assert_eq!(
        out,
        "#counter(page).display(\"A\")/#text(weight: \"bold\")[#counter(page).final().first()]"
    );
}

#[test]
fn a_double_rule_is_two_lines_a_third_as_thick() {
    let mut p = line(vec![HFInline::Run(run("T"))]);
    p.border = Some(CellBorder {
        top: Some(BorderSide {
            width: pt(3),
            color: Color::new(98, 36, 35),
            style: BorderLineStyle::Double,
        }),
        bottom: None,
        left: None,
        right: None,
    });
    assert_eq!(
        render_line(&p),
        "#line(length: 100%, stroke: 1pt + rgb(98, 36, 35))\n#v(1pt)\n#line(length: 100%, stroke: 1pt + rgb(98, 36, 35))\nT"
    );
}

#[test]
fn a_bottom_rule_keeps_its_declared_gap() {
    let mut p = line(vec![HFInline::Run(run("T"))]);
    p.style.alignment = Some(Alignment::Right);
    p.border = Some(CellBorder {
        top: None,
        bottom: Some(BorderSide {
            width: 5000,
            color: Color::new(204, 204, 204),
            style: BorderLineStyle::Dashed,
        }),
        left: None,
        right: None,
    });
    p.border_space = Some(Insets { top: 0, right: 0, bottom: pt(4), left: 0 });
    assert_eq!(
        render_line(&p),
        "#set text(bottom-edge: \"descender\")\n#align(right)[T]\n#block(height: 4pt)[]\n#line(length: 100%, stroke: (paint: rgb(204, 204, 204), thickness: 0.5pt, dash: \"dashed\"))"
    );
    assert_eq!(RULE_HAIRLINE_GAP, 5000);
}

#[test]
fn framed_paragraphs_of_header_and_footer_share_the_foreground() {
    let framed = |text: &str, x: Option<i64>, y: Option<i64>| HeaderFooterParagraph {
        frame: Some(HeaderFooterFrame {
            x,
            y,
            horizontal_anchor: FrameAnchor::Page,
            vertical_anchor: FrameAnchor::Page,
        }),
        ..line(vec![HFInline::Run(run(text))])
    };
    let in_margin = HeaderFooterParagraph {
        frame: Some(HeaderFooterFrame {
            x: Some(pt(5)),
            y: Some(pt(5)),
            horizontal_anchor: FrameAnchor::Margin,
            vertical_anchor: FrameAnchor::Page,
        }),
        ..line(vec![HFInline::Run(run("M"))])
    };
    let mut page = flow(vec![]);
    page.header = Some(HeaderFooter {
        distance_from_edge: None,
        paragraphs: vec![framed("H", None, Some(pt(12))), in_margin],
    });
    page.footer = Some(HeaderFooter {
        distance_from_edge: None,
        paragraphs: vec![framed("F", Some(pt(1)), Some(pt(2)))],
    });
    let out = generate_typst(&Document { pages: vec![Page::Flow(page)] });
    assert_eq!(
        out.source,
        format!(
            "{PREAMBLE}{A4_SETUP}, header: [#block(width: 100%)[M]\n], foreground: [#place(top + left, dx: 0pt, dy: 12pt)[H]\n#place(top + left, dx: 1pt, dy: 2pt)[F]\n])\n"
        )
    );
}

#[test]
fn body_paragraph_spacing_heading_and_alignment() {
    let p = Paragraph {
        style: ParagraphStyle {
            alignment: Some(Alignment::Center),
            heading_level: Some(2),
            space_before: Some(pt(6)),
            space_after: Some(pt(3)),
            ..ParagraphStyle::default()
        },
        runs: vec![run("T")],
    };
    let mut later = String::new();
    write_body_para(&mut later, &p, false);
    assert_eq!(later, "#block(above: 6pt, below: 3pt)[#align(center)[#heading(level: 2)[T]]]\n\n");
    let mut opening = String::new();
    write_body_para(&mut opening, &p, true);
    assert_eq!(opening, "#v(6pt)\n#block(below: 3pt)[#align(center)[#heading(level: 2)[T]]]\n\n");
}

#[test]
fn breaks_in_the_body_are_kept() {
    let doc = Document {
        pages: vec![Page::Flow(flow(vec![
            Block::Paragraph(paragraph("a")),
            Block::PageBreak,
            Block::ColumnBreak,
            Block::Paragraph(paragraph("b")),
        ]))],
    };
    let out = generate_typst(&doc);
    assert_eq!(out.source, format!("{PREAMBLE}{A4_SETUP})\na\n\n#pagebreak()\n#colbreak()\nb\n\n"));
}

#[test]
fn caption_marker_reduces_its_identifier_to_label_characters() {
    let doc = Document {
        pages: vec![Page::Flow(flow(vec![Block::Caption(Caption {
            identifier: "Fig 1".to_string(),
            entry_text: "Entry".to_string(),
            paragraph: paragraph("Figure 1 Entry"),
        })]))],
    };
    let out = generate_typst(&doc);
    assert_eq!(
        out.source,
        format!("{PREAMBLE}{A4_SETUP})\n#metadata[Entry]<o2p-seq-Fig-201>\nFigure 1 Entry\n\n")
    );
}

#[test]
fn numbering_without_a_restart_only_records_the_numerals() {
    let mut page = flow(vec![]);
    page.page_numbering = Some(PageNumbering { start: None, format: PageNumberFormat::UpperLetter });
    page.footer = Some(HeaderFooter {
        distance_from_edge: None,
        paragraphs: vec![line(vec![HFInline::PageNumber(TextStyle::default())])],
    });
    let out = generate_typst(&Document { pages: vec![Page::Flow(page)] });
    assert_eq!(
        out.source,
        format!(
            "{PREAMBLE}{A4_SETUP}, footer: context [#block(width: 100%)[#counter(page).display(\"A\")]\n])\n#o2p-page-format.update(\"A\")\n"
        )
    );
}

#[test]
fn fixed_page_text_box_is_placed_in_its_block() {
    let page = FixedPage {
        size: PageSize { width: pt(720), height: pt(540) },
        elements: vec![FixedElement {
            x: pt(10),
            y: pt(20),
            width: pt(100),
            height: pt(50),
            kind: FixedElementKind::TextBox(vec![paragraph("Hi")]),
        }],
        background_color: None,
    };
    let out = generate_typst(&Document { pages: vec![Page::Fixed(page)] });
    assert_eq!(
        out.source,
        format!(
            "{PREAMBLE}#set page(width: 720pt, height: 540pt, margin: 0pt, fill: white)\n#place(top + left, dx: 10pt, dy: 20pt)[#block(width: 100pt, height: 50pt)[\nHi\n\n]]\n"
        )
    );
}

#[test]
fn pages_of_every_kind_are_separated_by_one_break_each() {
    let sheet = SheetPage {
        size: PageSize::default(),
        margins: Margins::default(),
        table: Table {
            rows: vec![TableRow {
                cells: vec![TableCell {
                    content: vec![Block::Paragraph(paragraph("x"))],
                    ..TableCell::default()
                }],
                height: None,
            }],
            ..Table::default()
        },
        header: None,
        footer: None,
    };
    let fixed = FixedPage {
        size: PageSize { width: pt(720), height: pt(540) },
        elements: vec![],
        background_color: Some(Color::new(255, 0, 0)),
    };
    let doc = Document {
        pages: vec![
            Page::Flow(flow(vec![Block::Paragraph(paragraph("A"))])),
            Page::Fixed(fixed),
            Page::Sheet(sheet),
        ],
    };
    let out = generate_typst(&doc);
    assert_eq!(
        out.source,
        format!(
            "{PREAMBLE}{A4_SETUP})\nA\n\n#pagebreak()\n#set page(width: 720pt, height: 540pt, margin: 0pt, fill: rgb(255, 0, 0))\n#pagebreak()\n{A4_SETUP})\n#table(\n  stroke: none,\n  [x],\n)\n"
        )
    );
}

#[test]
fn options_apply_to_sheets_but_not_to_fixed_pages() {
    let fixed = FixedPage {
        size: PageSize { width: pt(720), height: pt(540) },
        elements: vec![],
        background_color: None,
    };
    let sheet = SheetPage {
        size: PageSize::default(),
        margins: Margins::default(),
        table: Table::default(),
        header: None,
        footer: None,
    };
    let doc = Document { pages: vec![Page::Fixed(fixed), Page::Sheet(sheet)] };
    let options = ConvertOptions { paper_size: Some(PaperSize::Legal), landscape: Some(false) };
    let out = generate_typst_with_options(&doc, &options);
    assert!(out.source.contains("#set page(width: 720pt, height: 540pt,"));
    assert!(out.source.contains("#set page(width: 612pt, height: 1008pt,"));
}

#[test]
fn page_sizes_turn_to_the_requested_orientation() {
    let legal_landscape = ConvertOptions { paper_size: Some(PaperSize::Legal), landscape: Some(true) };
    assert_eq!(
        page_size_with_options(PageSize::default(), &legal_landscape),
        PageSize { width: pt(1008), height: pt(612) }
    );
    let portrait = ConvertOptions { paper_size: None, landscape: Some(false) };
    assert_eq!(
        page_size_with_options(PageSize { width: pt(800), height: pt(600) }, &portrait),
        PageSize { width: pt(600), height: pt(800) }
    );
    let a4 = ConvertOptions { paper_size: Some(PaperSize::A4), landscape: None };
    assert_eq!(
        page_size_with_options(PageSize { width: pt(800), height: pt(600) }, &a4),
        PageSize::default()
    );
    assert_eq!(
        page_size_with_options(PageSize { width: pt(800), height: pt(600) }, &ConvertOptions::default()),
        PageSize { width: pt(800), height: pt(600) }
    );
}

#[test]
fn body_paragraph_settings_open_its_block() {
    let p = Paragraph {
        style: ParagraphStyle {
            alignment: Some(Alignment::Justify),
            direction: Some(lib::ir::TextDirection::Rtl),
            line_spacing: Some(pt(12)),
            ..ParagraphStyle::default()
        },
        runs: vec![run("t")],
    };
    let mut out = String::new();
    write_body_para(&mut out, &p, false);
    assert_eq!(
        out,
        "#block()[\n  #set par(leading: 12pt)\n  #set par(justify: true)\n  #set text(dir: rtl)\nt]\n\n"
    );
}

#[test]
fn a_page_line_grid_holds_the_space_after_of_east_asian_table_rows() {
    let table = || Table {
        rows: vec![TableRow {
            cells: vec![TableCell {
                content: vec![Block::Paragraph(Paragraph {
                    style: ParagraphStyle { space_after: Some(pt(4)), ..ParagraphStyle::default() },
                    runs: vec![run("\u{65e5}")],
                })],
                ..TableCell::default()
            }],
            height: None,
        }],
        ..Table::default()
    };
    let mut gridded = flow(vec![Block::Table(table())]);
    gridded.line_grid_pitch = Some(pt(18));
    let out = generate_typst(&Document { pages: vec![Page::Flow(gridded)] });
    assert!(out.source.contains("  [\u{65e5}],\n"));
    assert!(!out.source.contains("#v(4pt)"));
    let plain = flow(vec![Block::Table(table())]);
    let out = generate_typst(&Document { pages: vec![Page::Flow(plain)] });
    assert!(out.source.contains("  [\u{65e5}\n#v(4pt)],\n"));
}
