//! The codecs that are known by name: what each reads and writes, and how
//! much it keeps.

use vstd::prelude::*;
use crate::format::Format;

verus! {

/// How much of a node a codec keeps.
#[derive(Clone, Copy, Debug, PartialEq, Eq, Structural)]
pub enum CodecSupport {
    /// The codec does not take the node, or the format
    Unsupported,
    /// Little is lost
    LowLoss,
    /// Much is lost
    HighLoss,
    /// Nothing is lost
    NoLoss,
}

impl CodecSupport {
    /// Whether the codec takes the node, or the format, at all.
    pub fn is_supported(&self) -> (b: bool)
        ensures
            b == !(*self is Unsupported),
    {
        match self {
            CodecSupport::Unsupported => false,
            _ => true,
        }
    }
}

/// How mature a codec is.
#[derive(Clone, Copy, Debug, PartialEq, Eq, Structural)]
pub enum Status {
    UnderDevelopment,
    Unstable,
    Stable,
}

/// A codec for JSON
#[derive(Clone, Copy, Debug, Default, PartialEq, Eq, Structural)]
pub struct JsonCodec;

/// A codec for YAML
#[derive(Clone, Copy, Debug, Default, PartialEq, Eq, Structural)]
pub struct YamlCodec;

/// A codec for LaTeX
#[derive(Clone, Copy, Debug, Default, PartialEq, Eq, Structural)]
pub struct LatexCodec;

/// The address of the schema of a type of node: what the root of a
/// document in JSON or YAML gives as its `$schema`.
pub fn schema_url(node_type: &str) -> (url: String)
    ensures
        url@ == "https://stencila.dev/"@ + node_type@ + ".schema.json"@,
{
    let mut url = String::from_str("https://stencila.dev/");
    url.append(node_type);
    url.append(".schema.json");
    url
}

impl JsonCodec {
    /// The name of the codec.
    pub fn name(&self) -> (name: &'static str)
        ensures
            name@ == "json"@,
    {
        "json"
    }

    /// How mature the codec is.
    pub fn status(&self) -> (status: Status)
        ensures
            status == Status::Unstable,
    {
        Status::Unstable
    }

    /// The formats that the codec reads and writes.
    pub fn supported_formats(&self) -> (formats: Vec<Format>)
        ensures
            formats@ == seq![Format::Json],
    {
        let mut formats: Vec<Format> = Vec::new();
        formats.push(Format::Json);
        formats
    }

    /// Nothing is lost in JSON.
    pub fn supports_format(&self, format: &Format) -> (support: CodecSupport)
        ensures
            support == if *format is Json {
                CodecSupport::NoLoss
            } else {
                CodecSupport::Unsupported
            },
    {
        match format {
            Format::Json => CodecSupport::NoLoss,
            _ => CodecSupport::Unsupported,
        }
    }
}

impl YamlCodec {
    /// The name of the codec.
    pub fn name(&self) -> (name: &'static str)
        ensures
            name@ == "yaml"@,
    {
        "yaml"
    }

    /// How mature the codec is.
    pub fn status(&self) -> (status: Status)
        ensures
            status == Status::Stable,
    {
        Status::Stable
    }

    /// The formats that the codec reads and writes.
    pub fn supported_formats(&self) -> (formats: Vec<Format>)
        ensures
            formats@ == seq![Format::Yaml],
    {
        let mut formats: Vec<Format> = Vec::new();
        formats.push(Format::Yaml);
        formats
    }

    /// Nothing is lost in YAML.
    pub fn supports_format(&self, format: &Format) -> (support: CodecSupport)
        ensures
            support == if *format is Yaml {
                CodecSupport::NoLoss
            } else {
                CodecSupport::Unsupported
            },
    {
        match format {
            Format::Yaml => CodecSupport::NoLoss,
            _ => CodecSupport::Unsupported,
        }
    }
}

impl LatexCodec {
    /// The name of the codec.
    pub fn name(&self) -> (name: &'static str)
        ensures
            name@ == "latex"@,
    {
        "latex"
    }

    /// How mature the codec is.
    pub fn status(&self) -> (status: Status)
        ensures
            status == Status::UnderDevelopment,
    {
        Status::UnderDevelopment
    }
}

} // verus!
