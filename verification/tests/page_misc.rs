use lib::document::{generate_typst, generate_typst_with_options};
use lib::ir::{
    note_run, Alignment, Block, BorderLineStyle, BorderSide, Caption, CellBorder, Color,
    ConvertOptions, Document, FixedElement, FixedElementKind, FixedPage, FlowPage, FrameAnchor,
    HFInline, HeaderFooter, HeaderFooterFrame, HeaderFooterParagraph, Insets, Margins, Page,
    PageNumberFormat, PageNumbering, PageSize, PaperSize, Paragraph, ParagraphStyle,
    PositionedTab, PositionedTabAlignment, Run, SheetPage, Table, TableCell, TableOfContents,
    TableRow, TextStyle,
};

fn plain_run(text: &str) -> Run {
    Run { text: text.to_string(), style: TextStyle::default(), href: None, footnote: None }
}

fn make_paragraph(text: &str) -> Block {
    Block::Paragraph(Paragraph { style: ParagraphStyle::default(), runs: vec![plain_run(text)] })
}

fn make_flow_page(content: Vec<Block>) -> Page {
    Page::Flow(FlowPage {
        size: PageSize::default(),
        margins: Margins::default(),
        content,
        header: None,
        footer: None,
                line_grid_pitch: None,
                page_numbering: None,
    })
}

fn make_doc(pages: Vec<Page>) -> Document {
    Document { pages }
}

fn make_simple_table(rows: Vec<Vec<&str>>) -> Table {
    Table {
        rows: rows
            .into_iter()
            .map(|cells| TableRow {
                cells: cells
                    .into_iter()
                    .map(|text| TableCell { content: vec![make_paragraph(text)], ..TableCell::default() })
                    .collect(),
                height: None,
            })
            .collect(),
        ..Table::default()
    }
}

fn text_paragraph(elements: Vec<HFInline>) -> HeaderFooterParagraph {
    HeaderFooterParagraph {
        style: ParagraphStyle::default(),
        elements,
        border: None,
        border_space: None,
        frame: None,
    }
}

#[test]
fn test_generate_flow_page_with_text_header() {
    let doc = make_doc(vec![Page::Flow(FlowPage {
        size: PageSize::default(),
        margins: Margins::default(),
        content: vec![make_paragraph("Body text")],
        header: Some(HeaderFooter {
            distance_from_edge: None,
            paragraphs: vec![text_paragraph(vec![HFInline::Run(plain_run("Document Title"))])],
        }),
        footer: None,
                line_grid_pitch: None,
                page_numbering: None,
    })]);
    let output = generate_typst(&doc);
    assert!(output.source.contains("header:"));
    assert!(output.source.contains("Document Title"));
}

#[test]
fn test_generate_flow_page_with_page_number_footer() {
    let doc = make_doc(vec![Page::Flow(FlowPage {
        size: PageSize::default(),
        margins: Margins::default(),
        content: vec![make_paragraph("Body text")],
        header: None,
        footer: Some(HeaderFooter {
            distance_from_edge: Some(354000),
            paragraphs: vec![text_paragraph(vec![
                HFInline::Run(plain_run("Page ")),
                HFInline::PageNumber(TextStyle::default()),
            ])],
        }),
        line_grid_pitch: None,
        page_numbering: None,
    })]);
    let output = generate_typst(&doc);
    assert!(output.source.contains("footer:"));
    assert!(output.source.contains(r#"counter(page).display("1")"#));
    assert!(output.source.contains("Page "));
    // Word pins the footer's bottom `w:footer` points above the page edge.
    assert!(output.source.contains("footer-descent: 0pt"));
    assert!(output.source.contains("block(width: 100%, height: 36.6pt)"));
    assert!(output.source.contains("place(bottom"));
}

#[test]
fn test_generate_footer_with_compound_border_and_right_positioned_tab() {
    let doc = make_doc(vec![Page::Flow(FlowPage {
        size: PageSize::default(),
        margins: Margins::default(),
        content: vec![make_paragraph("Body")],
        header: None,
        footer: Some(HeaderFooter {
            distance_from_edge: None,
            paragraphs: vec![HeaderFooterParagraph {
                style: ParagraphStyle::default(),
                elements: vec![
                    HFInline::Run(plain_run("Left")),
                    HFInline::PositionedTab(PositionedTab {
                        alignment: PositionedTabAlignment::Right,
                    }),
                    HFInline::Run(plain_run("Page ")),
                    HFInline::PageNumber(TextStyle::default()),
                ],
                border: Some(CellBorder {
                    top: Some(BorderSide {
                        width: 30000,
                        color: Color::new(0x62, 0x24, 0x23),
                        style: BorderLineStyle::Double,
                    }),
                    bottom: None,
                    left: None,
                    right: None,
                }),
                border_space: None,
                frame: None,
            }],
        }),
        line_grid_pitch: None,
        page_numbering: None,
    })]);

    let output = generate_typst(&doc);
    assert!(output.source.contains("#grid(columns: (1fr, auto)"));
    assert!(output.source.contains("rgb(98, 36, 35)"));
    assert_eq!(output.source.matches("line(length: 100%").count(), 2);
}

#[test]
fn test_generate_page_anchored_footer_frame_in_foreground() {
    let doc = make_doc(vec![Page::Flow(FlowPage {
        size: PageSize::default(),
        margins: Margins::default(),
        content: vec![make_paragraph("Body")],
        header: None,
        footer: Some(HeaderFooter {
            distance_from_edge: None,
            paragraphs: vec![HeaderFooterParagraph {
                style: ParagraphStyle::default(),
                elements: vec![HFInline::Run(plain_run("Framed footer"))],
                border: None,
                border_space: None,
                frame: Some(HeaderFooterFrame {
                    x: Some(718000),
                    y: Some(1985000),
                    horizontal_anchor: FrameAnchor::Page,
                    vertical_anchor: FrameAnchor::Page,
                }),
            }],
        }),
        line_grid_pitch: None,
        page_numbering: None,
    })]);

    let output = generate_typst(&doc);
    assert!(output.source.contains("foreground: ["));
    assert!(output.source.contains("#place(top + left, dx: 71.8pt, dy: 198.5pt)"));
    assert!(!output.source.contains("footer:"));
}

#[test]
fn test_generate_flow_page_with_header_and_footer() {
    let doc = make_doc(vec![Page::Flow(FlowPage {
        size: PageSize::default(),
        margins: Margins::default(),
        content: vec![make_paragraph("Body")],
        header: Some(HeaderFooter {
            distance_from_edge: None,
            paragraphs: vec![text_paragraph(vec![HFInline::Run(plain_run("Header"))])],
        }),
        footer: Some(HeaderFooter {
            distance_from_edge: None,
            paragraphs: vec![text_paragraph(vec![HFInline::PageNumber(TextStyle::default())])],
        }),
        line_grid_pitch: None,
        page_numbering: None,
    })]);
    let output = generate_typst(&doc);
    assert!(output.source.contains("header:") && output.source.contains("footer:"));
}

#[test]
fn test_generate_flow_page_without_header_footer() {
    let doc = make_doc(vec![make_flow_page(vec![make_paragraph("Body")])]);
    let output = generate_typst(&doc);
    assert!(!output.source.contains("header:"));
    assert!(!output.source.contains("footer:"));
}

#[test]
fn test_generate_typst_inserts_pagebreak_between_flow_pages() {
    let first = make_flow_page(vec![make_paragraph("First section")]);
    let second = make_flow_page(vec![make_paragraph("Second section")]);

    let output = generate_typst(&make_doc(vec![first, second]));
    let pagebreak_count = output.source.matches("#pagebreak()").count();

    assert_eq!(pagebreak_count, 1);
}

#[test]
fn test_fixed_page_with_background_color() {
    let page = Page::Fixed(FixedPage {
        size: PageSize { width: 7200000, height: 5400000 },
        elements: vec![],
        background_color: Some(Color::new(255, 0, 0)),
    });
    let doc = make_doc(vec![page]);
    let output = generate_typst(&doc);
    assert!(output.source.contains("fill: rgb(255, 0, 0)"));
}

#[test]
fn test_fixed_page_without_background_color() {
    let page = Page::Fixed(FixedPage {
        size: PageSize { width: 7200000, height: 5400000 },
        elements: vec![],
        background_color: None,
    });
    let doc = make_doc(vec![page]);
    let output = generate_typst(&doc);
    assert!(
        output.source.contains("fill: white"),
        "Expected fill: white for no-background slide, got:\n{}",
        output.source
    );
}

#[test]
fn test_fixed_page_table_element() {
    let table = Table {
        rows: vec![TableRow {
            cells: vec![
                TableCell {
                    content: vec![Block::Paragraph(Paragraph {
                        style: ParagraphStyle::default(),
                        runs: vec![plain_run("A1")],
                    })],
                    ..TableCell::default()
                },
                TableCell {
                    content: vec![Block::Paragraph(Paragraph {
                        style: ParagraphStyle::default(),
                        runs: vec![plain_run("B1")],
                    })],
                    ..TableCell::default()
                },
            ],
            height: None,
        }],
        column_widths: vec![1000000, 1000000],
        ..Table::default()
    };

    let page = Page::Fixed(FixedPage {
        size: PageSize { width: 7200000, height: 5400000 },
        elements: vec![FixedElement {
            x: 500000,
            y: 1000000,
            width: 2000000,
            height: 500000,
            kind: FixedElementKind::Table(table),
        }],
        background_color: None,
    });

    let doc = make_doc(vec![page]);
    let output = generate_typst(&doc);

    assert!(output.source.contains("#place(top + left, dx: 50pt, dy: 100pt)"));
    assert!(output.source.contains("#table("));
    assert!(output.source.contains("columns: (100pt, 100pt)"));
    assert!(output.source.contains("A1"));
    assert!(output.source.contains("B1"));
}

#[test]
fn test_hyperlink_generates_typst_link() {
    let doc = make_doc(vec![make_flow_page(vec![Block::Paragraph(Paragraph {
        style: ParagraphStyle::default(),
        runs: vec![Run {
            text: "Click me".to_string(),
            style: TextStyle::default(),
            href: Some("https://example.com".to_string()),
            footnote: None,
        }],
    })])]);

    let output = generate_typst(&doc);
    assert!(output.source.contains(r#"#link("https://example.com")[Click me]"#));
}

#[test]
fn test_hyperlink_with_styled_text() {
    let doc = make_doc(vec![make_flow_page(vec![Block::Paragraph(Paragraph {
        style: ParagraphStyle::default(),
        runs: vec![Run {
            text: "Bold link".to_string(),
            style: TextStyle { bold: Some(true), ..TextStyle::default() },
            href: Some("https://example.com".to_string()),
            footnote: None,
        }],
    })])]);

    let output = generate_typst(&doc);
    assert!(output.source.contains(r#"#link("https://example.com")["#));
    assert!(output.source.contains("#text(weight: \"bold\")"));
}

#[test]
fn test_hyperlink_mixed_with_plain_text() {
    let doc = make_doc(vec![make_flow_page(vec![Block::Paragraph(Paragraph {
        style: ParagraphStyle::default(),
        runs: vec![
            plain_run("Visit "),
            Run {
                text: "Rust".to_string(),
                style: TextStyle::default(),
                href: Some("https://rust-lang.org".to_string()),
                footnote: None,
            },
            plain_run(" for more."),
        ],
    })])]);

    let output = generate_typst(&doc);
    assert!(output.source.contains("Visit "));
    assert!(output.source.contains(r#"#link("https://rust-lang.org")[Rust]"#));
    assert!(output.source.contains(" for more."));
}

#[test]
fn test_hyperlink_url_with_special_chars_escaped() {
    let doc = make_doc(vec![make_flow_page(vec![Block::Paragraph(Paragraph {
        style: ParagraphStyle::default(),
        runs: vec![Run {
            text: "Link".to_string(),
            style: TextStyle::default(),
            href: Some("https://example.com/path?q=1&r=2".to_string()),
            footnote: None,
        }],
    })])]);

    let output = generate_typst(&doc);
    assert!(output.source.contains(r#"#link("https://example.com/path?q=1&r=2")[Link]"#));
}

#[test]
fn test_footnote_generates_typst_footnote() {
    let doc = make_doc(vec![make_flow_page(vec![Block::Paragraph(Paragraph {
        style: ParagraphStyle::default(),
        runs: vec![
            plain_run("Some text"),
            Run {
                text: String::new(),
                style: TextStyle::default(),
                href: None,
                footnote: Some(vec![note_run("This is a footnote.")]),
            },
        ],
    })])]);

    let output = generate_typst(&doc);
    assert!(output.source.contains("#footnote[This is a footnote.]"));
}

#[test]
fn test_footnote_with_special_chars() {
    let doc = make_doc(vec![make_flow_page(vec![Block::Paragraph(Paragraph {
        style: ParagraphStyle::default(),
        runs: vec![Run {
            text: String::new(),
            style: TextStyle::default(),
            href: None,
            footnote: Some(vec![note_run("Note with #special *chars*")]),
        }],
    })])]);

    let output = generate_typst(&doc);
    assert!(output.source.contains(r"#footnote[Note with \#special \*chars\*]"));
}

#[test]
fn test_table_page_with_header() {
    let page = Page::Sheet(SheetPage {
        size: PageSize::default(),
        margins: Margins::default(),
        table: make_simple_table(vec![vec!["A"]]),
        header: Some(HeaderFooter {
            distance_from_edge: None,
            paragraphs: vec![HeaderFooterParagraph {
                style: ParagraphStyle {
                    alignment: Some(Alignment::Center),
                    ..ParagraphStyle::default()
                },
                elements: vec![HFInline::Run(plain_run("My Header"))],
                border: None,
                border_space: None,
                frame: None,
            }],
        }),
        footer: None,
    });
    let doc = make_doc(vec![page]);
    let output = generate_typst(&doc);
    assert!(output.source.contains("header: ["));
    assert!(output.source.contains("My Header"));
}

#[test]
fn test_table_page_with_page_number_footer() {
    let page = Page::Sheet(SheetPage {
        size: PageSize::default(),
        margins: Margins::default(),
        table: make_simple_table(vec![vec!["A"]]),
        header: None,
        footer: Some(HeaderFooter {
            distance_from_edge: None,
            paragraphs: vec![HeaderFooterParagraph {
                style: ParagraphStyle {
                    alignment: Some(Alignment::Center),
                    ..ParagraphStyle::default()
                },
                elements: vec![
                    HFInline::Run(plain_run("Page ")),
                    HFInline::PageNumber(TextStyle::default()),
                    HFInline::Run(plain_run(" of ")),
                    HFInline::TotalPages(TextStyle::default()),
                ],
                border: None,
                border_space: None,
                frame: None,
            }],
        }),
    });
    let doc = make_doc(vec![page]);
    let output = generate_typst(&doc);
    assert!(output.source.contains("footer: context ["));
    assert!(output.source.contains(r#"#counter(page).display("1")"#));
    assert!(output.source.contains("#counter(page).final().first()"));
}

#[test]
fn test_table_page_no_header_footer() {
    let page = Page::Sheet(SheetPage {
        size: PageSize::default(),
        margins: Margins::default(),
        table: make_simple_table(vec![vec!["A"]]),
        header: None,
        footer: None,
    });
    let doc = make_doc(vec![page]);
    let output = generate_typst(&doc);
    assert!(!output.source.contains("header:"));
    assert!(!output.source.contains("footer:"));
}

#[test]
fn test_paper_size_override_letter() {
    let doc = make_doc(vec![make_flow_page(vec![make_paragraph("Test")])]);
    let options = ConvertOptions { paper_size: Some(PaperSize::Letter), ..Default::default() };
    let output = generate_typst_with_options(&doc, &options);
    assert!(output.source.contains("width: 612pt"));
    assert!(output.source.contains("height: 792pt"));
}

#[test]
fn test_landscape_override_swaps_dimensions() {
    let doc = make_doc(vec![make_flow_page(vec![make_paragraph("Test")])]);
    let options = ConvertOptions { landscape: Some(true), ..Default::default() };
    let output = generate_typst_with_options(&doc, &options);
    assert!(output.source.contains("width: 841.89pt"));
    assert!(output.source.contains("height: 595.28pt"));
}

#[test]
fn test_portrait_override_keeps_portrait() {
    let doc = make_doc(vec![make_flow_page(vec![make_paragraph("Test")])]);
    let options = ConvertOptions { landscape: Some(false), ..Default::default() };
    let output = generate_typst_with_options(&doc, &options);
    assert!(output.source.contains("width: 595.28pt"));
    assert!(output.source.contains("height: 841.89pt"));
}

#[test]
fn test_paper_size_with_landscape() {
    let doc = make_doc(vec![make_flow_page(vec![make_paragraph("Test")])]);
    let options = ConvertOptions { paper_size: Some(PaperSize::Letter), landscape: Some(true) };
    let output = generate_typst_with_options(&doc, &options);
    assert!(output.source.contains("width: 792pt"));
    assert!(output.source.contains("height: 612pt"));
}

#[test]
fn test_no_override_uses_original_size() {
    let doc = make_doc(vec![make_flow_page(vec![make_paragraph("Test")])]);
    let options = ConvertOptions::default();
    let output = generate_typst_with_options(&doc, &options);
    assert!(output.source.contains("width: 595.28pt"));
}

/// Word letterhead headers commonly carry a bottom paragraph rule under the
/// header text. The rule must render below the content, not be dropped.
#[test]
fn test_generate_header_with_bottom_border_draws_rule_below_text() {
    let doc = make_doc(vec![Page::Flow(FlowPage {
        size: PageSize::default(),
        margins: Margins::default(),
        content: vec![make_paragraph("Body")],
        header: Some(HeaderFooter {
            distance_from_edge: None,
            paragraphs: vec![HeaderFooterParagraph {
                style: ParagraphStyle::default(),
                elements: vec![HFInline::Run(plain_run("Manual v0.6"))],
                border: Some(CellBorder {
                    top: None,
                    bottom: Some(BorderSide {
                        width: 5000,
                        color: Color::new(0xCC, 0xCC, 0xCC),
                        style: BorderLineStyle::Solid,
                    }),
                    left: None,
                    right: None,
                }),
                border_space: None,
                frame: None,
            }],
        }),
        footer: None,
                line_grid_pitch: None,
                page_numbering: None,
    })]);

    let output = generate_typst(&doc);
    assert_eq!(
        output.source.matches("line(length: 100%").count(),
        1,
        "the bottom rule must be emitted"
    );
    assert!(output.source.contains("rgb(204, 204, 204)"), "the rule keeps the border color");
    let text_pos = output.source.find("Manual v0.6").expect("header text present");
    let rule_pos = output.source.find("line(length: 100%").expect("rule present");
    assert!(rule_pos > text_pos, "a bottom rule must be drawn after the header text");
}

/// A paragraph carrying both a top and a bottom rule must draw both.
#[test]
fn test_generate_header_with_top_and_bottom_borders_draws_both_rules() {
    let rule = |width: i64| {
        Some(BorderSide {
            width,
            color: Color::new(0x33, 0x66, 0x99),
            style: BorderLineStyle::Solid,
        })
    };

    let doc = make_doc(vec![Page::Flow(FlowPage {
        size: PageSize::default(),
        margins: Margins::default(),
        content: vec![make_paragraph("Body")],
        header: Some(HeaderFooter {
            distance_from_edge: None,
            paragraphs: vec![HeaderFooterParagraph {
                style: ParagraphStyle::default(),
                elements: vec![HFInline::Run(plain_run("Framed"))],
                border: Some(CellBorder {
                    top: rule(10000),
                    bottom: rule(10000),
                    left: None,
                    right: None,
                }),
                border_space: None,
                frame: None,
            }],
        }),
        footer: None,
                line_grid_pitch: None,
                page_numbering: None,
    })]);

    let output = generate_typst(&doc);
    assert_eq!(
        output.source.matches("line(length: 100%").count(),
        2,
        "both rules must be emitted"
    );
}

/// The footer distance is measured from the bottom page edge to the bottom of
/// the footer, so the footer must be pinned to that line and grow upward, not
/// pushed further away from the edge.
#[test]
fn test_flow_page_footer_is_pinned_to_the_word_edge_distance() {
    let doc = make_doc(vec![Page::Flow(FlowPage {
        size: PageSize::default(),
        margins: Margins { top: 623500, bottom: 623500, left: 708500, right: 708500 },
        content: vec![make_paragraph("Body")],
        header: None,
        footer: Some(HeaderFooter {
            distance_from_edge: Some(354000),
            paragraphs: vec![text_paragraph(vec![HFInline::Run(plain_run("- 1 -"))])],
        }),
        line_grid_pitch: None,
        page_numbering: None,
    })]);

    let output = generate_typst(&doc);
    assert!(
        output.source.contains("footer-descent: 0pt"),
        "the footer origin must sit on the bottom margin line"
    );
    assert!(
        output.source.contains("block(width: 100%, height: 26.95pt)"),
        "the band must span bottom margin minus footer distance, got: {}",
        output.source
    );
    assert!(
        output.source.contains("bottom-edge: \"descender\""),
        "the distance is measured to the descender line"
    );
    assert!(output.source.contains("place(bottom"), "the footer grows upward from the pinned bottom");
    assert!(
        !output.source.contains("move(dy: -26.95pt)"),
        "the footer must not be shifted away from the page edge"
    );
}

/// Without a declared footer distance the previous placement is kept, so
/// formats that do not carry the attribute are unaffected.
#[test]
fn test_flow_page_footer_without_edge_distance_keeps_default_placement() {
    let doc = make_doc(vec![Page::Flow(FlowPage {
        size: PageSize::default(),
        margins: Margins::default(),
        content: vec![make_paragraph("Body")],
        header: None,
        footer: Some(HeaderFooter {
            distance_from_edge: None,
            paragraphs: vec![text_paragraph(vec![HFInline::Run(plain_run("Plain footer"))])],
        }),
        line_grid_pitch: None,
        page_numbering: None,
    })]);

    let output = generate_typst(&doc);
    assert!(output.source.contains("footer: ["));
    assert!(!output.source.contains("footer-descent"));
}

/// A footer distance at or beyond the bottom margin leaves no band to draw, so
/// the default placement is used instead of a zero or negative height block.
#[test]
fn test_flow_page_footer_distance_beyond_margin_falls_back() {
    let doc = make_doc(vec![Page::Flow(FlowPage {
        size: PageSize::default(),
        margins: Margins { top: 720000, bottom: 300000, left: 720000, right: 720000 },
        content: vec![make_paragraph("Body")],
        header: None,
        footer: Some(HeaderFooter {
            distance_from_edge: Some(480000),
            paragraphs: vec![text_paragraph(vec![HFInline::Run(plain_run("Deep footer"))])],
        }),
        line_grid_pitch: None,
        page_numbering: None,
    })]);

    let output = generate_typst(&doc);
    assert!(!output.source.contains("footer-descent"));
    assert!(output.source.contains("Deep footer"));
}

/// The very first body paragraph keeps its space before, while Typst drops
/// leading block spacing at a page boundary. The gap has to be emitted as
/// explicit vertical space so the first heading is not pulled up to the top
/// margin.
#[test]
fn test_first_document_paragraph_keeps_its_space_before() {
    let mut heading = make_paragraph("Research Report");
    if let Block::Paragraph(ref mut paragraph) = heading {
        paragraph.style.space_before = Some(140000);
        paragraph.style.space_after = Some(70000);
    }

    let doc = make_doc(vec![make_flow_page(vec![heading, make_paragraph("Body")])]);

    let output = generate_typst(&doc);
    let spacer = output.source.find("#v(14pt").expect("explicit leading space emitted");
    let heading_pos = output.source.find("Research Report").expect("heading present");
    assert!(spacer < heading_pos, "the space must precede the heading, got: {}", output.source);
    assert!(
        !output.source[spacer..heading_pos].contains("above: 14pt"),
        "the collapsed block spacing must not be emitted twice"
    );
}

/// Only the document's first paragraph gets the explicit gap; later
/// paragraphs keep ordinary collapsing block spacing.
#[test]
fn test_later_paragraph_space_before_stays_block_spacing() {
    let mut second = make_paragraph("Second");
    if let Block::Paragraph(ref mut paragraph) = second {
        paragraph.style.space_before = Some(210000);
    }

    let doc = make_doc(vec![make_flow_page(vec![make_paragraph("First"), second])]);

    let output = generate_typst(&doc);
    assert!(!output.source.contains("#v(21pt"), "later paragraphs keep block spacing");
    assert!(output.source.contains("above: 21pt"));
}

/// A paragraph border side declares a gap in points between the text and the
/// rule; a header rule must sit that far below its text.
#[test]
fn test_generate_header_border_uses_declared_pbdr_space() {
    let doc = make_doc(vec![Page::Flow(FlowPage {
        size: PageSize::default(),
        margins: Margins::default(),
        content: vec![make_paragraph("Body")],
        header: Some(HeaderFooter {
            distance_from_edge: None,
            paragraphs: vec![HeaderFooterParagraph {
                style: ParagraphStyle::default(),
                elements: vec![HFInline::Run(plain_run("Manual v0.6"))],
                border: Some(CellBorder {
                    top: None,
                    bottom: Some(BorderSide {
                        width: 5000,
                        color: Color::new(0xCC, 0xCC, 0xCC),
                        style: BorderLineStyle::Solid,
                    }),
                    left: None,
                    right: None,
                }),
                border_space: Some(Insets { top: 0, right: 0, bottom: 40000, left: 0 }),
                frame: None,
            }],
        }),
        footer: None,
                line_grid_pitch: None,
                page_numbering: None,
    })]);

    let output = generate_typst(&doc);
    assert!(
        output.source.contains("block(height: 4pt)[]"),
        "the declared 4pt gap must separate text and rule, got: {}",
        output.source
    );
    assert!(
        output.source.contains("bottom-edge: \"descender\""),
        "the gap is measured from the descender line"
    );
}

/// Without a declared space the rule keeps the hairline clearance.
#[test]
fn test_generate_header_border_without_space_keeps_hairline_gap() {
    let doc = make_doc(vec![Page::Flow(FlowPage {
        size: PageSize::default(),
        margins: Margins::default(),
        content: vec![make_paragraph("Body")],
        header: Some(HeaderFooter {
            distance_from_edge: None,
            paragraphs: vec![HeaderFooterParagraph {
                style: ParagraphStyle::default(),
                elements: vec![HFInline::Run(plain_run("Plain"))],
                border: Some(CellBorder {
                    top: None,
                    bottom: Some(BorderSide {
                        width: 5000,
                        color: Color::black(),
                        style: BorderLineStyle::Solid,
                    }),
                    left: None,
                    right: None,
                }),
                border_space: None,
                frame: None,
            }],
        }),
        footer: None,
                line_grid_pitch: None,
                page_numbering: None,
    })]);

    let output = generate_typst(&doc);
    assert!(output.source.contains("block(height: 0.5pt)[]"));
}

/// The header distance is measured from the top page edge to the top of the
/// header, which then grows downward. Typst anchors headers by their bottom,
/// so the band has to hold the content against the header top.
#[test]
fn test_flow_page_header_is_pinned_to_the_word_edge_distance() {
    let doc = make_doc(vec![Page::Flow(FlowPage {
        size: PageSize::default(),
        margins: Margins { top: 623500, bottom: 623500, left: 708500, right: 708500 },
        content: vec![make_paragraph("Body")],
        header: Some(HeaderFooter {
            distance_from_edge: Some(354000),
            paragraphs: vec![text_paragraph(vec![HFInline::Run(plain_run("Manual v0.6"))])],
        }),
        footer: None,
                line_grid_pitch: None,
                page_numbering: None,
    })]);

    let output = generate_typst(&doc);
    assert!(
        output.source.contains("header-ascent: 0pt"),
        "the header origin must sit on the top margin line"
    );
    assert!(
        output.source.contains("block(width: 100%, height: 26.95pt)"),
        "the band must span top margin minus header distance, got: {}",
        output.source
    );
    assert!(output.source.contains("place(top"), "the header grows downward from the pinned top");
}

/// Without a declared header distance the previous placement is kept.
#[test]
fn test_flow_page_header_without_edge_distance_keeps_default_placement() {
    let doc = make_doc(vec![Page::Flow(FlowPage {
        size: PageSize::default(),
        margins: Margins::default(),
        content: vec![make_paragraph("Body")],
        header: Some(HeaderFooter {
            distance_from_edge: None,
            paragraphs: vec![text_paragraph(vec![HFInline::Run(plain_run("Plain header"))])],
        }),
        footer: None,
                line_grid_pitch: None,
                page_numbering: None,
    })]);

    let output = generate_typst(&doc);
    assert!(output.source.contains("header: ["));
    assert!(!output.source.contains("header-ascent"));
}

/// A page field takes the properties of the run that holds it, so the number
/// must render in the run's size and color rather than the document default.
#[test]
fn test_page_number_field_uses_its_run_style() {
    let field_style = TextStyle {
        font_size: Some(80000),
        color: Some(Color::new(0x88, 0x88, 0x88)),
        ..TextStyle::default()
    };
    let doc = make_doc(vec![Page::Flow(FlowPage {
        size: PageSize::default(),
        margins: Margins::default(),
        content: vec![make_paragraph("Body")],
        header: None,
        footer: Some(HeaderFooter {
            distance_from_edge: None,
            paragraphs: vec![text_paragraph(vec![
                HFInline::Run(Run {
                    text: "- ".to_string(),
                    style: field_style.clone(),
                    href: None,
                    footnote: None,
                }),
                HFInline::PageNumber(field_style.clone()),
            ])],
        }),
        line_grid_pitch: None,
        page_numbering: None,
    })]);

    let output = generate_typst(&doc);
    let counter =
        output.source.find(r#"#counter(page).display("1")"#).expect("page counter emitted");
    let prefix = &output.source[..counter];
    let wrapper =
        prefix.rfind("#text(").expect("the counter is wrapped in its run's text properties");
    assert!(
        prefix[wrapper..].contains("size: 8pt"),
        "the field keeps the run's size, got: {}",
        &prefix[wrapper..]
    );
    assert!(prefix[wrapper..].contains("rgb(136, 136, 136)"), "the field keeps the run's color");
}

/// An unstyled field stays a bare counter, so documents that never style their
/// page numbers are unchanged.
#[test]
fn test_unstyled_page_number_field_stays_bare() {
    let doc = make_doc(vec![Page::Flow(FlowPage {
        size: PageSize::default(),
        margins: Margins::default(),
        content: vec![make_paragraph("Body")],
        header: None,
        footer: Some(HeaderFooter {
            distance_from_edge: None,
            paragraphs: vec![text_paragraph(vec![HFInline::PageNumber(TextStyle::default())])],
        }),
        line_grid_pitch: None,
        page_numbering: None,
    })]);

    let output = generate_typst(&doc);
    assert!(output.source.contains(r#"#counter(page).display("1")"#));
    assert!(!output.source.contains("#text()[#counter"), "no empty text wrapper");
}

#[test]
fn test_section_page_numbering_updates_the_counter_and_its_numerals() {
    // A section restarts the counter at its boundary and renders the numerals
    // its format names; Typst counts from the document start in decimal unless
    // told otherwise.
    let Page::Flow(mut flow) = make_flow_page(vec![make_paragraph("front matter")]) else {
        unreachable!()
    };
    flow.footer = Some(HeaderFooter {
        paragraphs: vec![text_paragraph(vec![HFInline::PageNumber(TextStyle::default())])],
        distance_from_edge: None,
    });
    flow.page_numbering =
        Some(PageNumbering { start: Some(1), format: PageNumberFormat::LowerRoman });

    let output = generate_typst(&make_doc(vec![Page::Flow(flow)]));

    assert!(
        output.source.contains("#counter(page).update(1)"),
        "the section restarts the counter: {}",
        output.source
    );
    assert!(
        output.source.contains(r#"#counter(page).display("i")"#),
        "the page field renders the section's numerals: {}",
        output.source
    );
}

#[test]
fn test_contents_block_emits_an_outline_at_its_declared_depth() {
    // The entries, their page numbers, and the leaders between them all come
    // from where the headings land, which only the layout knows.
    let doc = make_doc(vec![make_flow_page(vec![
        Block::TableOfContents(TableOfContents::Headings { depth: 3 }),
        Block::Paragraph(Paragraph {
            style: ParagraphStyle { heading_level: Some(1), ..ParagraphStyle::default() },
            runs: vec![plain_run("1. 개요")],
        }),
    ])]);

    let output = generate_typst(&doc);
    assert!(
        output.source.contains("#outline(title: none, depth: 3)"),
        "the contents block resolves against the document's headings: {}",
        output.source
    );
}

#[test]
fn test_caption_list_queries_the_captions_it_collects() {
    // A caption is not a heading, so Typst's outline cannot reach it. Each one
    // drops an invisible marker as it is laid out and the list queries those,
    // so both the entries and their page numbers come from the layout.
    let doc = make_doc(vec![make_flow_page(vec![
        Block::TableOfContents(TableOfContents::Captions { identifier: "Figure".to_string() }),
        Block::Caption(Caption {
            identifier: "Figure".to_string(),
            entry_text: "변환 파이프라인".to_string(),
            paragraph: Paragraph {
                style: ParagraphStyle::default(),
                runs: vec![plain_run("그림 1  변환 파이프라인")],
            },
        }),
    ])]);

    let output = generate_typst(&doc);
    assert!(
        output.source.contains("#metadata[변환 파이프라인]<o2p-seq-Figure>"),
        "the caption carries the marker its list queries: {}",
        output.source
    );
    assert!(
        output.source.contains("query(<o2p-seq-Figure>)")
            && output.source.contains("let target = entry.location()")
            && output.source.contains("counter(page).at(target)"),
        "the list resolves each entry's page from where it landed: {}",
        output.source
    );
    assert!(
        output.source.contains("그림 1") && output.source.matches("변환 파이프라인").count() >= 2,
        "the caption still renders as itself, beside its list entry: {}",
        output.source
    );
}

#[test]
fn test_a_caption_identifier_outside_ascii_still_labels() {
    // A sequence name may be written in any script; a Typst label may not.
    let doc = make_doc(vec![make_flow_page(vec![Block::TableOfContents(
        TableOfContents::Captions { identifier: "표".to_string() },
    )])]);

    let output = generate_typst(&doc);
    assert!(
        output.source.contains("query(<o2p-seq--d45c>)"),
        "the identifier reduces to label characters: {}",
        output.source
    );
}

/// A contents entry is numbered the way the section it points into numbers
/// its pages, so an entry landing in roman-numbered front matter reads `i`
/// rather than `1`. The format travels with the layout, because only the
/// layout knows which section an entry resolved into.
#[test]
fn test_contents_entries_number_in_the_target_sections_format() {
    let front_matter = Page::Flow(FlowPage {
        size: PageSize::default(),
        margins: Margins::default(),
        content: vec![
            Block::TableOfContents(TableOfContents::Headings { depth: 3 }),
            Block::Paragraph(Paragraph {
                style: ParagraphStyle { heading_level: Some(1), ..ParagraphStyle::default() },
                runs: vec![plain_run("적용 범위")],
            }),
        ],
        header: None,
        footer: None,
                line_grid_pitch: None,
                page_numbering: Some(PageNumbering {
            start: Some(1),
            format: PageNumberFormat::LowerRoman,
        }),
    });
    let body = Page::Flow(FlowPage {
        size: PageSize::default(),
        margins: Margins::default(),
        content: vec![Block::Paragraph(Paragraph {
            style: ParagraphStyle { heading_level: Some(1), ..ParagraphStyle::default() },
            runs: vec![plain_run("1. 개요")],
        })],
        header: None,
        footer: None,
                line_grid_pitch: None,
                page_numbering: Some(PageNumbering { start: Some(1), format: PageNumberFormat::Decimal }),
    });

    let output = generate_typst(&make_doc(vec![front_matter, body]));

    assert!(
        output.source.contains("state(\"o2p-page-format\""),
        "the section's numeral format is recorded where the layout can read it back: {}",
        output.source
    );
    assert!(
        output.source.contains("o2p-page-format.update(\"i\")"),
        "the roman front matter records its format: {}",
        output.source
    );
    assert!(
        output.source.contains("o2p-page-format.update(\"1\")"),
        "the decimal body records its own: {}",
        output.source
    );
    assert!(
        output.source.contains("show outline.entry"),
        "the outline renders each entry's number through the recorded format: {}",
        output.source
    );
}

/// A caption list is numbered the same way a heading outline is: an entry
/// pointing at a table in roman-numbered front matter reads `i`, not `1`. The
/// list builds its own rows, so it reads the format back at the entry's
/// location just as the outline rule does.
#[test]
fn test_caption_list_numbers_in_the_target_sections_format() {
    let page = Page::Flow(FlowPage {
        size: PageSize::default(),
        margins: Margins::default(),
        content: vec![
            Block::TableOfContents(TableOfContents::Captions { identifier: "표".to_string() }),
            Block::Caption(Caption {
                identifier: "표".to_string(),
                entry_text: "문서 서지 정보".to_string(),
                paragraph: Paragraph {
                    style: ParagraphStyle::default(),
                    runs: vec![plain_run("표 1 문서 서지 정보")],
                },
            }),
        ],
        header: None,
        footer: None,
                line_grid_pitch: None,
                page_numbering: Some(PageNumbering {
            start: Some(1),
            format: PageNumberFormat::LowerRoman,
        }),
    });

    let output = generate_typst(&make_doc(vec![page]));

    assert!(
        output.source.contains("o2p-page-format.at(target)"),
        "the caption list reads the format back at each entry's location: {}",
        output.source
    );
    assert!(
        !output.source.contains("#entry_page]"),
        "the raw page count no longer reaches the row: {}",
        output.source
    );
}

/// A spreadsheet row's declared height is the row's total printed height,
/// and the text sits inside it. A sheet row that declares its height pins the
/// line to it, so the cell's default leading cannot push the track open.
#[test]
fn test_sheet_row_height_pins_the_cell_line_box() {
    let cell = TableCell {
        content: vec![Block::Paragraph(Paragraph {
            style: ParagraphStyle::default(),
            runs: vec![Run {
                text: "office2pdf".to_string(),
                style: TextStyle { font_size: Some(100000), ..TextStyle::default() },
                href: None,
                footnote: None,
            }],
        })],
        col_span: 1,
        row_span: 1,
        border: None,
        background: None,
        data_bar: None,
        icon_text: None,
        icon_color: None,
        spill_width: None,
        vertical_align: None,
        padding: None,
    };
    let page = Page::Sheet(SheetPage {
        size: PageSize::default(),
        margins: Margins::default(),
        table: Table {
            rows: vec![TableRow { cells: vec![cell], height: Some(150000) }],
            column_widths: vec![1200000],
            header_row_count: 0,
            non_repeating_header_row_count: 0,
            alignment: None,
            default_cell_padding: Some(Insets { top: 10000, right: 20000, bottom: 15000, left: 20000 }),
            use_content_driven_row_heights: false,
            default_vertical_align: None,
        },
        header: None,
        footer: None,
    });

    let output = generate_typst(&make_doc(vec![page]));

    assert!(
        output.source.contains("#set par(leading: 0pt)"),
        "the sheet cell drops the default leading that pushed the track open: {}",
        output.source
    );
    // 15pt row less 1.0 + 1.5 of padding leaves 12.5pt for a 10pt line: the
    // emitted edges have to sum to 1.25em, not the ~1.83em the default model
    // asked for.
    let edges: Vec<f64> = regex_edges(&output.source);
    assert_eq!(edges.len(), 2, "one top-edge/bottom-edge pair is emitted: {}", output.source);
    let total: f64 = edges[0] + edges[1];
    assert!(
        (total - 1.25).abs() < 0.01,
        "line box spans the declared row less its padding, got {total}em: {}",
        output.source
    );
}

/// Pull the `top-edge`/`bottom-edge` em values out of generated Typst.
fn regex_edges(source: &str) -> Vec<f64> {
    let mut values: Vec<f64> = Vec::new();
    for (marker, sign) in [("top-edge: ", 1.0), ("bottom-edge: -", 1.0)] {
        if let Some(start) = source.find(marker) {
            let rest = &source[start + marker.len()..];
            let end = rest.find("em").unwrap_or(0);
            if let Ok(value) = rest[..end].parse::<f64>() {
                values.push(value * sign);
            }
        }
    }
    values
}
