use docengine::format::{sidecar_path, Format, SidecarFormat};

#[test]
fn from_string() {
    assert_eq!(Format::from_string("cborZst").unwrap(), Format::CborZst);
    assert_eq!(Format::from_string("cborzst").unwrap(), Format::CborZst);

    assert_eq!(Format::from_string("mp3").unwrap(), Format::Mp3);

    assert_eq!(Format::from_string("file.avi").unwrap(), Format::Avi);

    assert_eq!(Format::from_string("https://example.org/cat.mp4").unwrap(), Format::Mp4);
}

#[test]
fn names_resolve_through_aliases_and_tags() {
    assert_eq!(Format::from_name("md").unwrap(), Format::Markdown);
    assert_eq!(Format::from_name("  YML ").unwrap(), Format::Yaml);
    assert_eq!(Format::from_name("txt").unwrap(), Format::Text);
    assert_eq!(Format::from_name("sta").unwrap(), Format::Article);
    assert_eq!(Format::from_name("markdown").unwrap(), Format::Markdown);
    assert_eq!(Format::from_name("HTML").unwrap(), Format::Html);
    assert_eq!(Format::from_name("webp").unwrap(), Format::WebP);
    assert_eq!(Format::from_name("unknown").unwrap(), Format::Unknown);
}

#[test]
fn unknown_name_is_an_error_that_names_it() {
    let error = Format::from_name("docx").unwrap_err();
    assert_eq!(error.name, "docx");
    assert_eq!(error.message(), "No format matching name `docx`");
    // only the short names are trimmed
    assert!(Format::from_name(" html").is_err());
    assert!(Format::from_name("").is_err());
}

#[test]
fn paths_resolve_by_compound_suffix_then_extension() {
    assert_eq!(Format::from_path("article.jats.xml").unwrap(), Format::Jats);
    assert_eq!(Format::from_path("data/store.cbor.zst").unwrap(), Format::CborZst);
    assert_eq!(Format::from_path("dir.d/notes.md").unwrap(), Format::Markdown);
    assert_eq!(Format::from_path("notes.yml").unwrap(), Format::Yaml);
    assert_eq!(Format::from_path("a/b.c/json5").unwrap(), Format::Json5);
    assert_eq!(Format::from_path("picture.PNG").unwrap(), Format::Png);
    assert!(Format::from_path("archive.xml").is_err());
    assert!(Format::from_path(".md").is_err());
    assert!(Format::from_path("notes.").is_err());
}

#[test]
fn names_ranks_and_kinds() {
    assert_eq!(Format::Article.name(), "Stencila Article");
    assert_eq!(Format::CborZst.name(), "CBOR+Zstandard");
    assert_eq!(Format::Mp3.name(), "MPEG-3");
    assert_eq!(Format::Text.name(), "Plain text");
    assert_eq!(Format::Json.rank(), 0);
    assert_eq!(Format::Yaml.rank(), 0);
    assert_eq!(Format::Markdown.rank(), 1);
    assert_eq!(Format::Png.rank(), u8::MAX);
    assert!(Format::Article.is_store());
    assert!(!Format::Json.is_store());
    assert!(Format::Svg.is_image() && !Format::Svg.is_audio() && !Format::Svg.is_video());
    assert!(Format::Ogg.is_audio() && !Format::Ogg.is_video());
    assert!(Format::Ogv.is_video() && !Format::Ogv.is_audio());
    assert!(Format::Json.is_lossless() && !Format::Markdown.is_lossless());
    assert_eq!(Format::default(), Format::Unknown);
}

#[test]
fn extension_is_the_lower_case_tag() {
    assert_eq!(Format::Markdown.get_extension(), "markdown");
    assert_eq!(Format::CborZst.get_extension(), "cborzst");
    assert_eq!(Format::WebM.get_extension(), "webm");
    for format in docengine::format::all_formats() {
        assert_eq!(Format::from_name(&format.get_extension()).unwrap(), format);
    }
}

#[test]
fn sidecar_stands_beside_the_document() {
    assert_eq!(sidecar_path("doc.md", SidecarFormat::Json), "doc.json");
    assert_eq!(sidecar_path("papers/doc.v2.md", SidecarFormat::JsonZip), "papers/doc.v2.json.zip");
    assert_eq!(sidecar_path("papers.d/doc", SidecarFormat::Json), "papers.d/doc.json");
    assert_eq!(sidecar_path(".hidden", SidecarFormat::Json), ".hidden.json");
}
