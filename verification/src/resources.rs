//! Resources that filters can redirect to or inject: a name, aliases, a kind and content.

use vstd::prelude::*;

use crate::utils::str_to_chars;

verus! {

/// Content types of redirect resources.
#[derive(Clone, Copy, Debug, PartialEq, Eq, Structural)]
pub enum MimeType {
    ApplicationJavascript,
    AudioMp3,
    ImageGif,
    ImagePng,
    ImageSvgXml,
    TextCss,
    TextHtml,
    TextPlain,
    VideoMp4,
    Unknown,
}

/// The content type string of a MIME type.
pub open spec fn spec_mime_str(m: MimeType) -> Seq<char> {
    match m {
        MimeType::ApplicationJavascript => "application/javascript"@,
        MimeType::AudioMp3 => "audio/mp3"@,
        MimeType::ImageGif => "image/gif"@,
        MimeType::ImagePng => "image/png"@,
        MimeType::ImageSvgXml => "image/svg+xml"@,
        MimeType::TextCss => "text/css"@,
        MimeType::TextHtml => "text/html"@,
        MimeType::TextPlain => "text/plain"@,
        MimeType::VideoMp4 => "video/mp4"@,
        MimeType::Unknown => "application/octet-stream"@,
    }
}

impl MimeType {
    /// The content type string of this MIME type.
    pub fn as_string(&self) -> (r: String)
        ensures
            r@ == spec_mime_str(*self),
    {
        let s: &str = match self {
            MimeType::ApplicationJavascript => "application/javascript",
            MimeType::AudioMp3 => "audio/mp3",
            MimeType::ImageGif => "image/gif",
            MimeType::ImagePng => "image/png",
            MimeType::ImageSvgXml => "image/svg+xml",
            MimeType::TextCss => "text/css",
            MimeType::TextHtml => "text/html",
            MimeType::TextPlain => "text/plain",
            MimeType::VideoMp4 => "video/mp4",
            MimeType::Unknown => "application/octet-stream",
        };
        s.to_owned()
    }
}

/// What a resource is: content served with a MIME type, or a script template.
#[derive(Clone, Copy, Debug, PartialEq, Eq, Structural)]
pub enum ResourceType {
    Mime(MimeType),
    Template,
}

/// A resource with its name, aliases, kind and content.
#[derive(Debug)]
pub struct Resource {
    pub name: String,
    pub aliases: Vec<String>,
    pub kind: ResourceType,
    pub content: String,
}

} // verus!
